//! Points, squared distances and the integer arithmetic of the torus.

use vstd::prelude::*;

verus! {

/// A point or a vector of the plane, in position steps.
#[derive(Debug, Clone, Copy, PartialEq, Eq, Structural)]
pub struct Point {
    pub x: i32,
    pub y: i32,
}

/// The square of the Euclidean distance between two points.
pub open spec fn dist_sq(a: Point, b: Point) -> int {
    (a.x - b.x) * (a.x - b.x) + (a.y - b.y) * (a.y - b.y)
}

/// The square of a 32-bit difference fits in 65 bits.
proof fn lemma_square_bound(d: int)
    requires
        -0x1_0000_0000 < d < 0x1_0000_0000,
    ensures
        0 <= d * d <= 0x1_0000_0000_0000_0000,
{
    assert(0 <= d * d <= 0x1_0000_0000_0000_0000) by (nonlinear_arith)
        requires
            -0x1_0000_0000 < d < 0x1_0000_0000,
    ;
}

/// Computes the squared distance between two points, exactly.
pub fn distance_sq(a: Point, b: Point) -> (d: u128)
    ensures
        d == dist_sq(a, b),
{
    let dx: i128 = a.x as i128 - b.x as i128;
    let dy: i128 = a.y as i128 - b.y as i128;
    proof {
        lemma_square_bound(dx as int);
        lemma_square_bound(dy as int);
    }
    (dx * dx + dy * dy) as u128
}

/// The square of a range given in position steps.
pub open spec fn range_sq(range: u32) -> int {
    range * range
}

/// Computes the square of a range.
pub fn square(range: u32) -> (s: u128)
    ensures
        s == range_sq(range),
{
    let r: u128 = range as u128;
    assert(r * r <= 0x1_0000_0000_0000_0000) by (nonlinear_arith)
        requires
            0 <= r < 0x1_0000_0000,
    ;
    r * r
}

/// Where a coordinate lies on a circle of the given size: the one value in
/// `[0, size)` that differs from it by a whole number of turns.
pub open spec fn wrapped(value: int, size: int) -> int {
    value % size
}

/// Wraps a coordinate onto a circle of the given size.
pub fn wrap(value: i128, size: i32) -> (w: i32)
    requires
        size > 0,
    ensures
        w == wrapped(value as int, size as int),
        0 <= w < size,
{
    let r = value.checked_rem_euclid(size as i128);
    match r {
        Some(v) => v as i32,
        None => 0,
    }
}

/// The quotient rounded towards minus infinity.
pub open spec fn floor_quot(value: int, by: int) -> int {
    value / by
}

/// Divides and rounds towards minus infinity.
pub fn floor_div(value: i128, by: i128) -> (q: i128)
    requires
        by > 0,
    ensures
        q == floor_quot(value as int, by as int),
{
    proof {
        lemma_floor_quot_range(value as int, by as int);
    }
    let q = value.checked_div_euclid(by);
    match q {
        Some(v) => v,
        None => 0,
    }
}

/// A quotient by a positive number is no further from zero than the dividend.
pub proof fn lemma_floor_quot_range(value: int, by: int)
    requires
        by > 0,
    ensures
        value >= 0 ==> 0 <= value / by <= value,
        value < 0 ==> value <= value / by < 0,
{
    assert(value >= 0 ==> 0 <= value / by <= value) by (nonlinear_arith)
        requires
            by > 0,
    ;
    assert(value < 0 ==> value <= value / by < 0) by (nonlinear_arith)
        requires
            by > 0,
    ;
}

} // verus!
