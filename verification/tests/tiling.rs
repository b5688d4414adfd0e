use renderer::canvas::Canvas;
use renderer::geometry_pipeline::{assemble_tiles, paint_tile, strip_width};

fn channels(canvas: &Canvas, x: u32, y: u32) -> [u8; 3] {
    canvas.get_pixel(x, y).0
}

fn solid_tile(width: u32, height: u32, color: [u8; 3]) -> Canvas {
    let mut tile = Canvas::new(width, height);
    let colors = vec![image::Rgb(color); (width * height) as usize];
    paint_tile(&mut tile, &colors);
    tile
}

#[test]
fn strip_width_divides_the_resolution() {
    assert_eq!(strip_width(420, 60), 7);
    assert_eq!(strip_width(420, 1), 420);
    assert_eq!(strip_width(3, 4), 0);
}

#[test]
fn paint_tile_lays_colors_out_row_major() {
    let mut tile = Canvas::new(2, 2);
    let colors = vec![
        image::Rgb([1, 0, 0]),
        image::Rgb([2, 0, 0]),
        image::Rgb([3, 0, 0]),
        image::Rgb([4, 0, 0]),
    ];
    paint_tile(&mut tile, &colors);
    assert_eq!(channels(&tile, 0, 0), [1, 0, 0]);
    assert_eq!(channels(&tile, 1, 0), [2, 0, 0]);
    assert_eq!(channels(&tile, 0, 1), [3, 0, 0]);
    assert_eq!(channels(&tile, 1, 1), [4, 0, 0]);
}

#[test]
fn assembled_tiles_land_in_index_order() {
    let mut canvas = Canvas::new(4, 2);
    let tiles = vec![solid_tile(2, 2, [10, 0, 0]), solid_tile(2, 2, [0, 20, 0])];
    assemble_tiles(&mut canvas, &tiles, 2);
    for y in 0..2 {
        for x in 0..2 {
            assert_eq!(channels(&canvas, x, y), [10, 0, 0]);
            assert_eq!(channels(&canvas, x + 2, y), [0, 20, 0]);
        }
    }
}

#[test]
fn assembly_leaves_uncovered_columns_alone() {
    let mut canvas = Canvas::new(5, 2);
    let tiles = vec![solid_tile(2, 2, [7, 7, 7])];
    assemble_tiles(&mut canvas, &tiles, 2);
    assert_eq!(channels(&canvas, 0, 0), [7, 7, 7]);
    assert_eq!(channels(&canvas, 1, 1), [7, 7, 7]);
    assert_eq!(channels(&canvas, 2, 0), [0, 0, 0]);
    assert_eq!(channels(&canvas, 4, 1), [0, 0, 0]);
}

#[test]
fn assembly_does_not_depend_on_tile_production_order() {
    // produce the same tile contents twice, in different orders, and join
    // them into equal canvases: the frames must match pixel for pixel
    let mut first = Canvas::new(6, 3);
    let mut second = Canvas::new(6, 3);

    let left = solid_tile(3, 3, [1, 2, 3]);
    let right = solid_tile(3, 3, [4, 5, 6]);
    assemble_tiles(&mut first, &vec![left, right], 3);

    let right_again = solid_tile(3, 3, [4, 5, 6]);
    let left_again = solid_tile(3, 3, [1, 2, 3]);
    assemble_tiles(&mut second, &vec![left_again, right_again], 3);

    for y in 0..3 {
        for x in 0..6 {
            assert_eq!(channels(&first, x, y), channels(&second, x, y));
        }
    }
}
