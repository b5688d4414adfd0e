//! 2D raster primitives.
//!
//! Screen-space geometry after projection: integer pixel coordinates, line
//! segments, triangles, and the axis-aligned box around a triangle.

use vstd::prelude::*;

verus! {

/// A point on the raster, in pixel coordinates.
#[derive(Clone, Copy, Debug, PartialEq, Eq, Structural)]
pub struct Point {
    pub x: i32,
    pub y: i32,
}

/// A 2D line segment.
#[derive(Clone, Copy, Debug, PartialEq, Eq, Structural)]
pub struct Line {
    pub a: Point,
    pub b: Point,
}

/// The axis-aligned bounding box of a 2D shape.
#[derive(Clone, Copy, Debug, PartialEq, Eq, Structural)]
pub struct BoundingBox2D {
    pub min: Point,
    pub max: Point,
}

/// A 2D triangle on the raster.
#[derive(Clone, Copy, Debug, PartialEq, Eq, Structural)]
pub struct Triangle {
    pub a: Point,
    pub b: Point,
    pub c: Point,
}

/// The smallest of three values.
pub open spec fn spec_min3(a: int, b: int, c: int) -> int {
    if a <= b && a <= c {
        a
    } else if b <= c {
        b
    } else {
        c
    }
}

/// The largest of three values.
pub open spec fn spec_max3(a: int, b: int, c: int) -> int {
    if a >= b && a >= c {
        a
    } else if b >= c {
        b
    } else {
        c
    }
}

impl Triangle {
    /// The tightest axis-aligned box that contains all three corners.
    pub fn get_bounding_box(&self) -> (bb: BoundingBox2D)
        ensures
            bb.min.x == spec_min3(self.a.x as int, self.b.x as int, self.c.x as int),
            bb.min.y == spec_min3(self.a.y as int, self.b.y as int, self.c.y as int),
            bb.max.x == spec_max3(self.a.x as int, self.b.x as int, self.c.x as int),
            bb.max.y == spec_max3(self.a.y as int, self.b.y as int, self.c.y as int),
    {
        let mut x = self.a.x;
        if self.b.x < x {
            x = self.b.x;
        }
        if self.c.x < x {
            x = self.c.x;
        }
        let mut y = self.a.y;
        if self.b.y < y {
            y = self.b.y;
        }
        if self.c.y < y {
            y = self.c.y;
        }
        let min = Point { x, y };
        let mut x = self.a.x;
        if self.b.x > x {
            x = self.b.x;
        }
        if self.c.x > x {
            x = self.c.x;
        }
        let mut y = self.a.y;
        if self.b.y > y {
            y = self.b.y;
        }
        if self.c.y > y {
            y = self.c.y;
        }
        let max = Point { x, y };
        BoundingBox2D { min, max }
    }
}

} // verus!
