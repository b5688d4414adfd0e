//! Solid-colour triangle rasterization.
//!
//! The current rasterizer paints a triangle as its wireframe outline in a
//! fixed colour; the corner ordering below is groundwork for scanline
//! filling.

use vstd::prelude::*;

use crate::canvas::{Canvas, canvas_dims, canvas_pixels, unchanged_at, write_seq};
use crate::line_plotting::{MAX_CANVAS_DIM, in_segment_box, line_writes, plot_triangle};
use crate::primitives::{Point, Triangle};

verus! {

/// Paints the triangle in the rasterizer's fixed fill colour, pure green:
/// the canvas afterwards is the canvas before with the triangle's three
/// edge segments written over it in `(0, 255, 0)`.
pub fn rasterize_triangle(triangle: Triangle, canvas: &mut Canvas)
    requires
        0 <= triangle.a.x,
        (triangle.a.x as int) < canvas_dims(*old(canvas)).0 as int,
        0 <= triangle.a.y,
        (triangle.a.y as int) < canvas_dims(*old(canvas)).1 as int,
        0 <= triangle.b.x,
        (triangle.b.x as int) < canvas_dims(*old(canvas)).0 as int,
        0 <= triangle.b.y,
        (triangle.b.y as int) < canvas_dims(*old(canvas)).1 as int,
        0 <= triangle.c.x,
        (triangle.c.x as int) < canvas_dims(*old(canvas)).0 as int,
        0 <= triangle.c.y,
        (triangle.c.y as int) < canvas_dims(*old(canvas)).1 as int,
        canvas_dims(*old(canvas)).0 <= MAX_CANVAS_DIM,
        canvas_dims(*old(canvas)).1 <= MAX_CANVAS_DIM,
    ensures
        canvas_dims(*final(canvas)) == canvas_dims(*old(canvas)),
        canvas_pixels(*final(canvas)) == write_seq(
            write_seq(
                write_seq(
                    canvas_pixels(*old(canvas)),
                    line_writes(triangle.a, triangle.b, (0u8, 255u8, 0u8)),
                ),
                line_writes(triangle.b, triangle.c, (0u8, 255u8, 0u8)),
            ),
            line_writes(triangle.c, triangle.a, (0u8, 255u8, 0u8)),
        ),
        forall|q: (int, int)|
            !in_segment_box(q, triangle.a, triangle.b) && !in_segment_box(
                q,
                triangle.b,
                triangle.c,
            ) && !in_segment_box(q, triangle.c, triangle.a) ==> unchanged_at(
                canvas_pixels(*old(canvas)),
                canvas_pixels(*final(canvas)),
                q,
            ),
{
    let color = crate::canvas::rgb_new(0, 255, 0);
    plot_triangle(triangle.clone(), canvas, color);
}

/// Whether the sorting network below leaves the first two corners swapped:
/// each of its three compare stages holds the incoming corners against each
/// other, and each positive compare swaps the list's first two slots, so the
/// first two slots end up exchanged exactly when an odd number of compares
/// fire.
pub open spec fn corners_swapped(t: Triangle) -> bool {
    let s1 = (t.c.y == t.a.y && t.c.x < t.a.x) || t.c.y > t.a.y;
    let s2 = (t.b.y == t.a.y && t.b.x < t.a.x) || t.b.y > t.a.y;
    let s3 = (t.c.y == t.b.y && t.c.x < t.b.x) || t.c.y > t.b.y;
    (s1 != s2) != s3
}

/// The corner list the sorting network produces.
pub open spec fn sorted_corners(t: Triangle) -> Seq<Point> {
    if corners_swapped(t) {
        seq![t.b, t.a, t.c]
    } else {
        seq![t.a, t.b, t.c]
    }
}

/// Orders the triangle's corners through a three-stage compare network that
/// compares the incoming corners by `y`, breaking ties towards the smaller
/// `x`, swapping the list's first two slots at each positive compare.
pub fn _sort_points(triangle: &Triangle) -> (points: Vec<Point>)
    ensures
        points@ == sorted_corners(*triangle),
        points@.len() == 3,
{
    let p0 = triangle.a;
    let p1 = triangle.b;
    let p2 = triangle.c;
    let mut first = p0;
    let mut second = p1;

    // first and last
    if p2.y == p0.y {
        if p2.x < p0.x {
            let kept = first;
            first = second;
            second = kept;
        }
    }
    if p2.y > p0.y {
        let kept = first;
        first = second;
        second = kept;
    }

    // first two
    if p1.y == p0.y {
        if p1.x < p0.x {
            let kept = first;
            first = second;
            second = kept;
        }
    }
    if p1.y > p0.y {
        let kept = first;
        first = second;
        second = kept;
    }

    // last two
    if p2.y == p1.y {
        if p2.x < p1.x {
            let kept = first;
            first = second;
            second = kept;
        }
    }
    if p2.y > p1.y {
        let kept = first;
        first = second;
        second = kept;
    }

    let mut points: Vec<Point> = Vec::new();
    points.push(first);
    points.push(second);
    points.push(p2);
    proof {
        assert(points@ =~= sorted_corners(*triangle));
    }
    points
}

} // verus!
