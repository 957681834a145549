//! The triangle that shows a boid, computed afresh from its heading.

use vstd::prelude::*;
use crate::boids::Boid;
use crate::geometry::{floor_div, Point};
use crate::units::TRIG_ONE;

verus! {

/// A corner of the triangle, in position steps on the screen.
#[derive(Debug, Clone, Copy, PartialEq, Eq, Structural)]
pub struct Vertex {
    pub x: i64,
    pub y: i64,
}

/// The three corners of a boid's triangle.
#[derive(Debug, Clone, Copy, PartialEq, Eq, Structural)]
pub struct Triangle {
    pub tip: Vertex,
    pub left: Vertex,
    pub right: Vertex,
}

/// The tip of the triangle of a boid that faces up, seen from its origin.
pub open spec fn base_tip() -> Point {
    Point { x: 0, y: (-5000i32) }
}

/// The left corner of the triangle of a boid that faces up.
pub open spec fn base_left() -> Point {
    Point { x: (-5000i32), y: 5000 }
}

/// The right corner of the triangle of a boid that faces up.
pub open spec fn base_right() -> Point {
    Point { x: 5000, y: 5000 }
}

/// Where the offset `base` lies once it is turned by the heading whose sine
/// and cosine are given, and set at the boid's origin; each coordinate is
/// rounded down.
pub open spec fn placed(me: Boid, base: Point, sin: i32, cos: i32) -> Vertex {
    Vertex {
        x: (me.origin.x + (cos * base.x - sin * base.y) / (TRIG_ONE as int)) as i64,
        y: (me.origin.y + (sin * base.x + cos * base.y) / (TRIG_ONE as int)) as i64,
    }
}

/// A product of two 32-bit values fits in 63 bits.
proof fn lemma_product_bound(a: int, b: int)
    requires
        -0x8000_0000 <= a <= 0x8000_0000,
        -0x8000_0000 <= b <= 0x8000_0000,
    ensures
        -0x4000_0000_0000_0000 <= a * b <= 0x4000_0000_0000_0000,
{
    assert(-0x4000_0000_0000_0000 <= a * b <= 0x4000_0000_0000_0000) by (nonlinear_arith)
        requires
            -0x8000_0000 <= a <= 0x8000_0000,
            -0x8000_0000 <= b <= 0x8000_0000,
    ;
}

impl Boid {
    /// Turns the offset `base` by the heading whose sine and cosine are
    /// given, and sets it at the boid's origin.
    pub fn place(&self, base: Point, sin: i32, cos: i32) -> (v: Vertex)
        ensures
            v == placed(*self, base, sin, cos),
    {
        proof {
            lemma_product_bound(cos as int, base.x as int);
            lemma_product_bound(sin as int, base.y as int);
            lemma_product_bound(sin as int, base.x as int);
            lemma_product_bound(cos as int, base.y as int);
        }
        let across: i128 = cos as i128 * base.x as i128 - sin as i128 * base.y as i128;
        let down: i128 = sin as i128 * base.x as i128 + cos as i128 * base.y as i128;
        let x: i128 = self.origin.x as i128 + floor_div(across, TRIG_ONE as i128);
        let y: i128 = self.origin.y as i128 + floor_div(down, TRIG_ONE as i128);
        Vertex { x: x as i64, y: y as i64 }
    }

    /// The triangle that shows the boid, given the sine and cosine of its
    /// heading: the triangle of a boid that faces up, turned and set at the
    /// boid's origin.
    pub fn positions(&self, sin: i32, cos: i32) -> (t: Triangle)
        ensures
            t.tip == placed(*self, base_tip(), sin, cos),
            t.left == placed(*self, base_left(), sin, cos),
            t.right == placed(*self, base_right(), sin, cos),
    {
        Triangle {
            tip: self.place(Point { x: 0, y: -5000 }, sin, cos),
            left: self.place(Point { x: -5000, y: 5000 }, sin, cos),
            right: self.place(Point { x: 5000, y: 5000 }, sin, cos),
        }
    }
}

} // verus!
