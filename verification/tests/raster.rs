use renderer::canvas::Canvas;
use renderer::line_plotting::{plot_line, plot_triangle};
use renderer::primitives::{Point, Triangle};
use renderer::rasterization::{_sort_points, rasterize_triangle};

fn channels(canvas: &Canvas, x: u32, y: u32) -> [u8; 3] {
    canvas.get_pixel(x, y).0
}

#[test]
fn fresh_canvas_is_black() {
    let canvas = Canvas::new(10, 10);
    assert_eq!(canvas.width(), 10);
    assert_eq!(canvas.height(), 10);
    assert_eq!(channels(&canvas, 0, 0), [0, 0, 0]);
    assert_eq!(channels(&canvas, 9, 9), [0, 0, 0]);
}

#[test]
fn horizontal_line_paints_half_open_span() {
    let mut canvas = Canvas::new(10, 10);
    let color = image::Rgb([10, 20, 30]);
    let p0 = Point { x: 0, y: 0 };
    let p1 = Point { x: 5, y: 0 };
    plot_line(&mut canvas, &p0, &p1, color);
    for x in 0..5 {
        assert_eq!(channels(&canvas, x, 0), [10, 20, 30]);
    }
    // the end column itself is not painted by the shallow branch
    assert_eq!(channels(&canvas, 5, 0), [0, 0, 0]);
    assert_eq!(channels(&canvas, 0, 1), [0, 0, 0]);
}

#[test]
fn shallow_line_steps_the_minor_axis() {
    let mut canvas = Canvas::new(10, 10);
    let color = image::Rgb([255, 255, 255]);
    let p0 = Point { x: 0, y: 0 };
    let p1 = Point { x: 4, y: 2 };
    plot_line(&mut canvas, &p0, &p1, color);
    // error accumulator trace: (0,0), (1,0), (2,1), (3,1)
    assert_eq!(channels(&canvas, 0, 0), [255, 255, 255]);
    assert_eq!(channels(&canvas, 1, 0), [255, 255, 255]);
    assert_eq!(channels(&canvas, 2, 1), [255, 255, 255]);
    assert_eq!(channels(&canvas, 3, 1), [255, 255, 255]);
    assert_eq!(channels(&canvas, 2, 0), [0, 0, 0]);
    assert_eq!(channels(&canvas, 4, 2), [0, 0, 0]);
}

#[test]
fn vertical_line_uses_steep_branch() {
    let mut canvas = Canvas::new(10, 10);
    let color = image::Rgb([1, 2, 3]);
    let p0 = Point { x: 2, y: 1 };
    let p1 = Point { x: 2, y: 4 };
    plot_line(&mut canvas, &p0, &p1, color);
    assert_eq!(channels(&canvas, 2, 1), [1, 2, 3]);
    assert_eq!(channels(&canvas, 2, 2), [1, 2, 3]);
    assert_eq!(channels(&canvas, 2, 3), [1, 2, 3]);
    assert_eq!(channels(&canvas, 2, 4), [0, 0, 0]);
}

#[test]
fn reversed_endpoints_paint_from_the_top() {
    let mut canvas = Canvas::new(10, 10);
    let color = image::Rgb([9, 9, 9]);
    let p0 = Point { x: 0, y: 3 };
    let p1 = Point { x: 0, y: 0 };
    plot_line(&mut canvas, &p0, &p1, color);
    assert_eq!(channels(&canvas, 0, 0), [9, 9, 9]);
    assert_eq!(channels(&canvas, 0, 1), [9, 9, 9]);
    assert_eq!(channels(&canvas, 0, 2), [9, 9, 9]);
    assert_eq!(channels(&canvas, 0, 3), [0, 0, 0]);
}

#[test]
fn triangle_outline_touches_all_three_edges() {
    let mut canvas = Canvas::new(8, 8);
    let color = image::Rgb([200, 100, 50]);
    let triangle = Triangle {
        a: Point { x: 0, y: 0 },
        b: Point { x: 4, y: 0 },
        c: Point { x: 0, y: 4 },
    };
    plot_triangle(triangle, &mut canvas, color);
    // bottom edge, hypotenuse, left edge
    assert_eq!(channels(&canvas, 2, 0), [200, 100, 50]);
    assert_eq!(channels(&canvas, 2, 2), [200, 100, 50]);
    assert_eq!(channels(&canvas, 0, 2), [200, 100, 50]);
    // interior and far corner stay untouched
    assert_eq!(channels(&canvas, 1, 1), [0, 0, 0]);
    assert_eq!(channels(&canvas, 7, 7), [0, 0, 0]);
}

#[test]
fn rasterized_triangle_is_green() {
    let mut canvas = Canvas::new(8, 8);
    let triangle = Triangle {
        a: Point { x: 0, y: 0 },
        b: Point { x: 4, y: 0 },
        c: Point { x: 0, y: 4 },
    };
    rasterize_triangle(triangle, &mut canvas);
    assert_eq!(channels(&canvas, 2, 0), [0, 255, 0]);
    assert_eq!(channels(&canvas, 0, 2), [0, 255, 0]);
    assert_eq!(channels(&canvas, 2, 2), [0, 255, 0]);
    assert_eq!(channels(&canvas, 3, 3), [0, 0, 0]);
}

#[test]
fn bounding_box_spans_the_corners() {
    let triangle = Triangle {
        a: Point { x: 3, y: -1 },
        b: Point { x: -5, y: 7 },
        c: Point { x: 2, y: 0 },
    };
    let bb = triangle.get_bounding_box();
    assert_eq!(bb.min, Point { x: -5, y: -1 });
    assert_eq!(bb.max, Point { x: 3, y: 7 });
}

#[test]
fn bounding_box_of_a_degenerate_triangle() {
    let p = Point { x: 4, y: 4 };
    let triangle = Triangle { a: p, b: p, c: p };
    let bb = triangle.get_bounding_box();
    assert_eq!(bb.min, p);
    assert_eq!(bb.max, p);
}

#[test]
fn sort_points_keeps_an_already_rising_triangle() {
    let triangle = Triangle {
        a: Point { x: 0, y: 5 },
        b: Point { x: 1, y: 0 },
        c: Point { x: 2, y: 0 },
    };
    let points = _sort_points(&triangle);
    assert_eq!(points.len(), 3);
    assert_eq!(points[0], triangle.a);
    assert_eq!(points[1], triangle.b);
    assert_eq!(points[2], triangle.c);
}

#[test]
fn sort_points_swaps_on_an_odd_number_of_compares() {
    // all corners share a row, so all three tie-break compares fire
    let triangle = Triangle {
        a: Point { x: 3, y: 0 },
        b: Point { x: 1, y: 0 },
        c: Point { x: 0, y: 0 },
    };
    let points = _sort_points(&triangle);
    assert_eq!(points[0], triangle.b);
    assert_eq!(points[1], triangle.a);
    assert_eq!(points[2], triangle.c);
}

#[test]
fn degenerate_segment_paints_nothing() {
    let mut canvas = Canvas::new(4, 4);
    let color = image::Rgb([5, 5, 5]);
    let p = Point { x: 2, y: 2 };
    plot_line(&mut canvas, &p, &p, color);
    for y in 0..4 {
        for x in 0..4 {
            assert_eq!(channels(&canvas, x, y), [0, 0, 0]);
        }
    }
}

#[test]
fn falling_shallow_line_steps_downward() {
    let mut canvas = Canvas::new(6, 6);
    let color = image::Rgb([77, 0, 0]);
    let p0 = Point { x: 0, y: 2 };
    let p1 = Point { x: 4, y: 0 };
    plot_line(&mut canvas, &p0, &p1, color);
    // error accumulator trace: (0,2), (1,2), (2,1), (3,1)
    assert_eq!(channels(&canvas, 0, 2), [77, 0, 0]);
    assert_eq!(channels(&canvas, 1, 2), [77, 0, 0]);
    assert_eq!(channels(&canvas, 2, 1), [77, 0, 0]);
    assert_eq!(channels(&canvas, 3, 1), [77, 0, 0]);
    assert_eq!(channels(&canvas, 4, 0), [0, 0, 0]);
}

#[test]
fn line_may_touch_the_last_row_and_column() {
    let mut canvas = Canvas::new(4, 4);
    let color = image::Rgb([0, 0, 9]);
    let p0 = Point { x: 3, y: 0 };
    let p1 = Point { x: 3, y: 3 };
    plot_line(&mut canvas, &p0, &p1, color);
    assert_eq!(channels(&canvas, 3, 0), [0, 0, 9]);
    assert_eq!(channels(&canvas, 3, 2), [0, 0, 9]);
    assert_eq!(channels(&canvas, 3, 3), [0, 0, 0]);
}

#[test]
fn horizontal_line_may_end_at_the_canvas_edge() {
    let mut canvas = Canvas::new(4, 4);
    let color = image::Rgb([8, 8, 8]);
    let p0 = Point { x: 0, y: 1 };
    let p1 = Point { x: 4, y: 1 };
    plot_line(&mut canvas, &p0, &p1, color);
    assert_eq!(channels(&canvas, 0, 1), [8, 8, 8]);
    assert_eq!(channels(&canvas, 3, 1), [8, 8, 8]);
}
