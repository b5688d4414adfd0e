//! Bresenham line plotting.
//!
//! A segment is rasterized by walking its major axis one pixel at a time
//! while an integer error accumulator decides when the minor axis steps.
//! The contracts pin down the painted pixels exactly: the canvas afterwards
//! equals the canvas before with precisely the recurrence's pixel sequence
//! written over it, and nothing outside the segment's bounding box changes.

use vstd::prelude::*;

use crate::canvas::{Canvas, canvas_dims, canvas_pixels, rgb_channels, unchanged_at, write_seq};
use crate::primitives::{Point, Triangle};

verus! {

/// Largest accepted canvas edge.  Keeping coordinates below this bound keeps
/// the error accumulator's `i32` arithmetic exact.
pub const MAX_CANVAS_DIM: u32 = 0x2000_0000;

/// The magnitude of a value.
pub open spec fn abs_val(a: int) -> int {
    if a < 0 {
        -a
    } else {
        a
    }
}

/// The error accumulator after one major-axis step: while it is positive the
/// minor axis has fallen behind and the accumulator is paid back by a whole
/// major-axis span, otherwise it grows by the minor-axis difference.
pub open spec fn bres_next_d(d: int, dmajor: int, dminor: int) -> int {
    if d > 0 {
        d + 2 * (dminor - dmajor)
    } else {
        d + 2 * dminor
    }
}

/// The minor-axis coordinate after one major-axis step.
pub open spec fn bres_next_minor(v: int, step: int, d: int) -> int {
    if d > 0 {
        v + step
    } else {
        v
    }
}

/// The pixel writes of the shallow branch: one pixel per column from `x`
/// up to but not including `x1`, at the row the recurrence tracks.
pub open spec fn low_writes(
    x: int,
    x1: int,
    y: int,
    yi: int,
    d: int,
    dx: int,
    dy: int,
    c: (u8, u8, u8),
) -> Seq<((int, int), (u8, u8, u8))>
    decreases x1 - x,
{
    if x1 <= x {
        Seq::empty()
    } else {
        seq![((x, y), c)] + low_writes(
            x + 1,
            x1,
            bres_next_minor(y, yi, d),
            yi,
            bres_next_d(d, dx, dy),
            dx,
            dy,
            c,
        )
    }
}

/// The pixel writes of the steep branch: one pixel per row from `y` up to
/// but not including `y1`, at the column the recurrence tracks.
pub open spec fn high_writes(
    y: int,
    y1: int,
    x: int,
    xi: int,
    d: int,
    dy: int,
    dx: int,
    c: (u8, u8, u8),
) -> Seq<((int, int), (u8, u8, u8))>
    decreases y1 - y,
{
    if y1 <= y {
        Seq::empty()
    } else {
        seq![((x, y), c)] + high_writes(
            y + 1,
            y1,
            bres_next_minor(x, xi, d),
            xi,
            bres_next_d(d, dy, dx),
            dy,
            dx,
            c,
        )
    }
}

/// The writes of the shallow branch between two endpoints, left to right.
pub open spec fn low_writes_between(p0: Point, p1: Point, c: (u8, u8, u8)) -> Seq<
    ((int, int), (u8, u8, u8)),
> {
    let dx = p1.x - p0.x;
    let dy0 = p1.y - p0.y;
    let yi: int = if dy0 < 0 {
        -1
    } else {
        1
    };
    let dy = abs_val(dy0);
    low_writes(p0.x as int, p1.x as int, p0.y as int, yi, 2 * dy - dx, dx, dy, c)
}

/// The writes of the steep branch between two endpoints, top to bottom.
pub open spec fn high_writes_between(p0: Point, p1: Point, c: (u8, u8, u8)) -> Seq<
    ((int, int), (u8, u8, u8)),
> {
    let dy = p1.y - p0.y;
    let dx0 = p1.x - p0.x;
    let xi: int = if dx0 < 0 {
        -1
    } else {
        1
    };
    let dx = abs_val(dx0);
    high_writes(p0.y as int, p1.y as int, p0.x as int, xi, 2 * dx - dy, dy, dx, c)
}

/// Every pixel write the plotter performs for the segment `p0`-`p1`, in
/// paint order: the shallow branch walks columns when the segment is wider
/// than tall, the steep branch walks rows otherwise, always along the
/// growing major axis.
pub open spec fn line_writes(p0: Point, p1: Point, c: (u8, u8, u8)) -> Seq<
    ((int, int), (u8, u8, u8)),
> {
    if abs_val(p1.y - p0.y) < abs_val(p1.x - p0.x) {
        if p0.x > p1.x {
            low_writes_between(p1, p0, c)
        } else {
            low_writes_between(p0, p1, c)
        }
    } else {
        if p0.y > p1.y {
            high_writes_between(p1, p0, c)
        } else {
            high_writes_between(p0, p1, c)
        }
    }
}

/// `q` lies in the axis-aligned box spanned by the two endpoints.
pub open spec fn in_segment_box(q: (int, int), p0: Point, p1: Point) -> bool {
    &&& (if p0.x <= p1.x {
        p0.x <= q.0 <= p1.x
    } else {
        p1.x <= q.0 <= p0.x
    })
    &&& (if p0.y <= p1.y {
        p0.y <= q.1 <= p1.y
    } else {
        p1.y <= q.1 <= p0.y
    })
}

/// The segment's sweep stays on the canvas.  The shallow branch walks
/// columns and never paints the final one, so that column may sit at the
/// canvas edge; the steep branch likewise never paints its final row.
pub open spec fn segment_in_canvas(p0: Point, p1: Point, w: int, h: int) -> bool {
    let lo_x: int = if p0.x <= p1.x {
        p0.x as int
    } else {
        p1.x as int
    };
    let hi_x: int = if p0.x <= p1.x {
        p1.x as int
    } else {
        p0.x as int
    };
    let lo_y: int = if p0.y <= p1.y {
        p0.y as int
    } else {
        p1.y as int
    };
    let hi_y: int = if p0.y <= p1.y {
        p1.y as int
    } else {
        p0.y as int
    };
    if abs_val(p1.y - p0.y) < abs_val(p1.x - p0.x) {
        0 <= lo_x && hi_x <= w && 0 <= lo_y && hi_y < h
    } else {
        0 <= lo_x && hi_x < w && 0 <= lo_y && hi_y <= h
    }
}

/// Paints the shallow branch of the segment: `p0` is the left endpoint and
/// the segment is at least as wide as it is tall.
pub(crate) fn plot_line_low(canvas: &mut Canvas, p0: &Point, p1: &Point, color: image::Rgb<u8>)
    requires
        p0.x <= p1.x,
        abs_val(p1.y - p0.y) <= p1.x - p0.x,
        0 <= p0.x,
        p1.x as int <= canvas_dims(*old(canvas)).0 as int,
        0 <= p0.y,
        (p0.y as int) < canvas_dims(*old(canvas)).1 as int,
        0 <= p1.y,
        (p1.y as int) < canvas_dims(*old(canvas)).1 as int,
        canvas_dims(*old(canvas)).0 <= MAX_CANVAS_DIM,
        canvas_dims(*old(canvas)).1 <= MAX_CANVAS_DIM,
    ensures
        canvas_dims(*final(canvas)) == canvas_dims(*old(canvas)),
        canvas_pixels(*final(canvas)) == write_seq(
            canvas_pixels(*old(canvas)),
            low_writes_between(*p0, *p1, rgb_channels(color)),
        ),
        forall|q: (int, int)|
            !in_segment_box(q, *p0, *p1) ==> unchanged_at(
                canvas_pixels(*old(canvas)),
                canvas_pixels(*final(canvas)),
                q,
            ),
{
    let dx = p1.x - p0.x;
    let mut dy = p1.y - p0.y;
    let mut yi: i32 = 1;
    if dy < 0 {
        yi = -1;
        dy = -dy;
    }
    let mut d = (2 * dy) - dx;
    let mut y = p0.y;
    let mut x = p0.x;
    let ghost all_writes = low_writes_between(*p0, *p1, rgb_channels(color));
    let ghost mut v: int = 0;
    while x < p1.x
        invariant
            dx as int == p1.x - p0.x,
            dy as int == abs_val(p1.y - p0.y),
            (yi == 1 && p0.y <= p1.y) || (yi == -1i32 && p1.y < p0.y),
            p0.x <= x <= p1.x,
            0 <= dy <= dx,
            canvas_dims(*canvas) == canvas_dims(*old(canvas)),
            0 <= p0.x,
            p1.x as int <= canvas_dims(*canvas).0 as int,
            0 <= p0.y,
            (p0.y as int) < canvas_dims(*canvas).1 as int,
            0 <= p1.y,
            (p1.y as int) < canvas_dims(*canvas).1 as int,
            canvas_dims(*canvas).0 <= MAX_CANVAS_DIM,
            canvas_dims(*canvas).1 <= MAX_CANVAS_DIM,
            0 <= v <= dy,
            yi == 1 ==> y as int == p0.y + v,
            yi == -1i32 ==> y as int == p0.y - v,
            d as int == 2 * dy * (x - p0.x) + 2 * dy - dx - 2 * dx * v,
            -2 * dx <= d as int <= 2 * dy,
            2 * dx * v <= 2 * dy * (x - p0.x) + dx,
            all_writes == low_writes_between(*p0, *p1, rgb_channels(color)),
            write_seq(
                canvas_pixels(*canvas),
                low_writes(
                    x as int,
                    p1.x as int,
                    y as int,
                    yi as int,
                    d as int,
                    dx as int,
                    dy as int,
                    rgb_channels(color),
                ),
            ) == write_seq(canvas_pixels(*old(canvas)), all_writes),
            forall|q: (int, int)|
                !in_segment_box(q, *p0, *p1) ==> unchanged_at(
                    canvas_pixels(*old(canvas)),
                    canvas_pixels(*canvas),
                    q,
                ),
        decreases p1.x - x,
    {
        let ghost ws = low_writes(
            x as int,
            p1.x as int,
            y as int,
            yi as int,
            d as int,
            dx as int,
            dy as int,
            rgb_channels(color),
        );
        let ghost rest = low_writes(
            x as int + 1,
            p1.x as int,
            bres_next_minor(y as int, yi as int, d as int),
            yi as int,
            bres_next_d(d as int, dx as int, dy as int),
            dx as int,
            dy as int,
            rgb_channels(color),
        );
        proof {
            assert(ws == seq![(((x as int, y as int)), rgb_channels(color))] + rest);
            assert(ws[0] == (((x as int, y as int)), rgb_channels(color)));
            assert(ws.drop_first() =~= rest);
        }
        canvas.put_pixel(x as u32, y as u32, color);
        let ghost xo = x - p0.x;
        if d > 0 {
            proof {
                assert(v + 1 <= dy) by (nonlinear_arith)
                    requires
                        d as int == 2 * dy * xo + 2 * dy - dx - 2 * dx * v,
                        d > 0,
                        0 <= xo,
                        xo <= dx - 1,
                        0 <= dy <= dx,
                        0 <= v,
                ;
                assert(2 * (dy as int) * (xo + 1) == 2 * dy * xo + 2 * dy) by (nonlinear_arith);
                assert(2 * (dx as int) * (v + 1) == 2 * dx * v + 2 * dx) by (nonlinear_arith);
            }
            y = y + yi;
            d = d + (2 * (dy - dx));
            proof {
                v = v + 1;
            }
        } else {
            proof {
                assert(2 * (dy as int) * (xo + 1) == 2 * dy * xo + 2 * dy) by (nonlinear_arith);
            }
            d = d + 2 * dy;
        }
        x = x + 1;
    }
}

/// Paints the steep branch of the segment: `p0` is the top endpoint and the
/// segment is at least as tall as it is wide.
pub(crate) fn plot_line_high(canvas: &mut Canvas, p0: &Point, p1: &Point, color: image::Rgb<u8>)
    requires
        p0.y <= p1.y,
        abs_val(p1.x - p0.x) <= p1.y - p0.y,
        0 <= p0.y,
        p1.y as int <= canvas_dims(*old(canvas)).1 as int,
        0 <= p0.x,
        (p0.x as int) < canvas_dims(*old(canvas)).0 as int,
        0 <= p1.x,
        (p1.x as int) < canvas_dims(*old(canvas)).0 as int,
        canvas_dims(*old(canvas)).0 <= MAX_CANVAS_DIM,
        canvas_dims(*old(canvas)).1 <= MAX_CANVAS_DIM,
    ensures
        canvas_dims(*final(canvas)) == canvas_dims(*old(canvas)),
        canvas_pixels(*final(canvas)) == write_seq(
            canvas_pixels(*old(canvas)),
            high_writes_between(*p0, *p1, rgb_channels(color)),
        ),
        forall|q: (int, int)|
            !in_segment_box(q, *p0, *p1) ==> unchanged_at(
                canvas_pixels(*old(canvas)),
                canvas_pixels(*final(canvas)),
                q,
            ),
{
    let mut dx = p1.x - p0.x;
    let dy = p1.y - p0.y;
    let mut xi: i32 = 1;
    if dx < 0 {
        xi = -1;
        dx = -dx;
    }
    let mut d = (2 * dx) - dy;
    let mut x = p0.x;
    let mut y = p0.y;
    let ghost all_writes = high_writes_between(*p0, *p1, rgb_channels(color));
    let ghost mut v: int = 0;
    while y < p1.y
        invariant
            dy as int == p1.y - p0.y,
            dx as int == abs_val(p1.x - p0.x),
            (xi == 1 && p0.x <= p1.x) || (xi == -1i32 && p1.x < p0.x),
            p0.y <= y <= p1.y,
            0 <= dx <= dy,
            canvas_dims(*canvas) == canvas_dims(*old(canvas)),
            0 <= p0.y,
            p1.y as int <= canvas_dims(*canvas).1 as int,
            0 <= p0.x,
            (p0.x as int) < canvas_dims(*canvas).0 as int,
            0 <= p1.x,
            (p1.x as int) < canvas_dims(*canvas).0 as int,
            canvas_dims(*canvas).0 <= MAX_CANVAS_DIM,
            canvas_dims(*canvas).1 <= MAX_CANVAS_DIM,
            0 <= v <= dx,
            xi == 1 ==> x as int == p0.x + v,
            xi == -1i32 ==> x as int == p0.x - v,
            d as int == 2 * dx * (y - p0.y) + 2 * dx - dy - 2 * dy * v,
            -2 * dy <= d as int <= 2 * dx,
            2 * dy * v <= 2 * dx * (y - p0.y) + dy,
            all_writes == high_writes_between(*p0, *p1, rgb_channels(color)),
            write_seq(
                canvas_pixels(*canvas),
                high_writes(
                    y as int,
                    p1.y as int,
                    x as int,
                    xi as int,
                    d as int,
                    dy as int,
                    dx as int,
                    rgb_channels(color),
                ),
            ) == write_seq(canvas_pixels(*old(canvas)), all_writes),
            forall|q: (int, int)|
                !in_segment_box(q, *p0, *p1) ==> unchanged_at(
                    canvas_pixels(*old(canvas)),
                    canvas_pixels(*canvas),
                    q,
                ),
        decreases p1.y - y,
    {
        let ghost ws = high_writes(
            y as int,
            p1.y as int,
            x as int,
            xi as int,
            d as int,
            dy as int,
            dx as int,
            rgb_channels(color),
        );
        let ghost rest = high_writes(
            y as int + 1,
            p1.y as int,
            bres_next_minor(x as int, xi as int, d as int),
            xi as int,
            bres_next_d(d as int, dy as int, dx as int),
            dy as int,
            dx as int,
            rgb_channels(color),
        );
        proof {
            assert(ws == seq![(((x as int, y as int)), rgb_channels(color))] + rest);
            assert(ws[0] == (((x as int, y as int)), rgb_channels(color)));
            assert(ws.drop_first() =~= rest);
        }
        canvas.put_pixel(x as u32, y as u32, color);
        let ghost yo = y - p0.y;
        if d > 0 {
            proof {
                assert(v + 1 <= dx) by (nonlinear_arith)
                    requires
                        d as int == 2 * dx * yo + 2 * dx - dy - 2 * dy * v,
                        d > 0,
                        0 <= yo,
                        yo <= dy - 1,
                        0 <= dx <= dy,
                        0 <= v,
                ;
                assert(2 * (dx as int) * (yo + 1) == 2 * dx * yo + 2 * dx) by (nonlinear_arith);
                assert(2 * (dy as int) * (v + 1) == 2 * dy * v + 2 * dy) by (nonlinear_arith);
            }
            x = x + xi;
            d = d + (2 * (dx - dy));
            proof {
                v = v + 1;
            }
        } else {
            proof {
                assert(2 * (dx as int) * (yo + 1) == 2 * dx * yo + 2 * dx) by (nonlinear_arith);
            }
            d = d + 2 * dx;
        }
        y = y + 1;
    }
}

/// Paints the segment `p0`-`p1`: picks the branch whose major axis is the
/// segment's longer axis, swapping the endpoints so the walk always runs
/// along the growing major axis.
pub fn plot_line(canvas: &mut Canvas, p0: &Point, p1: &Point, color: image::Rgb<u8>)
    requires
        segment_in_canvas(
            *p0,
            *p1,
            canvas_dims(*old(canvas)).0 as int,
            canvas_dims(*old(canvas)).1 as int,
        ),
        canvas_dims(*old(canvas)).0 <= MAX_CANVAS_DIM,
        canvas_dims(*old(canvas)).1 <= MAX_CANVAS_DIM,
    ensures
        canvas_dims(*final(canvas)) == canvas_dims(*old(canvas)),
        canvas_pixels(*final(canvas)) == write_seq(
            canvas_pixels(*old(canvas)),
            line_writes(*p0, *p1, rgb_channels(color)),
        ),
        forall|q: (int, int)|
            !in_segment_box(q, *p0, *p1) ==> unchanged_at(
                canvas_pixels(*old(canvas)),
                canvas_pixels(*final(canvas)),
                q,
            ),
{
    let dy_abs = if p1.y >= p0.y {
        p1.y - p0.y
    } else {
        p0.y - p1.y
    };
    let dx_abs = if p1.x >= p0.x {
        p1.x - p0.x
    } else {
        p0.x - p1.x
    };
    if dy_abs < dx_abs {
        if p0.x > p1.x {
            plot_line_low(canvas, p1, p0, color);
        } else {
            plot_line_low(canvas, p0, p1, color);
        }
    } else {
        if p0.y > p1.y {
            plot_line_high(canvas, p1, p0, color);
        } else {
            plot_line_high(canvas, p0, p1, color);
        }
    }
    proof {
        assert forall|q: (int, int)| !in_segment_box(q, *p0, *p1) implies unchanged_at(
            canvas_pixels(*old(canvas)),
            canvas_pixels(*canvas),
            q,
        ) by {
            assert(in_segment_box(q, *p1, *p0) == in_segment_box(q, *p0, *p1));
        }
    }
}

/// Paints the triangle's outline: its three edges in order, all in one
/// colour.  The canvas afterwards is the canvas before with the three edge
/// segments' pixel writes applied in paint order, and nothing outside the
/// union of the three edges' bounding boxes changes.
pub fn plot_triangle(triangle: Triangle, canvas: &mut Canvas, color: image::Rgb<u8>)
    requires
        0 <= triangle.a.x,
        (triangle.a.x as int) < canvas_dims(*old(canvas)).0 as int,
        0 <= triangle.a.y,
        (triangle.a.y as int) < canvas_dims(*old(canvas)).1 as int,
        0 <= triangle.b.x,
        (triangle.b.x as int) < canvas_dims(*old(canvas)).0 as int,
        0 <= triangle.b.y,
        (triangle.b.y as int) < canvas_dims(*old(canvas)).1 as int,
        0 <= triangle.c.x,
        (triangle.c.x as int) < canvas_dims(*old(canvas)).0 as int,
        0 <= triangle.c.y,
        (triangle.c.y as int) < canvas_dims(*old(canvas)).1 as int,
        canvas_dims(*old(canvas)).0 <= MAX_CANVAS_DIM,
        canvas_dims(*old(canvas)).1 <= MAX_CANVAS_DIM,
    ensures
        canvas_dims(*final(canvas)) == canvas_dims(*old(canvas)),
        canvas_pixels(*final(canvas)) == write_seq(
            write_seq(
                write_seq(
                    canvas_pixels(*old(canvas)),
                    line_writes(triangle.a, triangle.b, rgb_channels(color)),
                ),
                line_writes(triangle.b, triangle.c, rgb_channels(color)),
            ),
            line_writes(triangle.c, triangle.a, rgb_channels(color)),
        ),
        forall|q: (int, int)|
            !in_segment_box(q, triangle.a, triangle.b) && !in_segment_box(
                q,
                triangle.b,
                triangle.c,
            ) && !in_segment_box(q, triangle.c, triangle.a) ==> unchanged_at(
                canvas_pixels(*old(canvas)),
                canvas_pixels(*final(canvas)),
                q,
            ),
{
    let a = triangle.a;
    let b = triangle.b;
    let c = triangle.c;

    plot_line(canvas, &a, &b, color);
    plot_line(canvas, &b, &c, color);
    plot_line(canvas, &c, &a, color);
}

} // verus!
