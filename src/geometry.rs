use vstd::prelude::*;

verus! {

/// Length of one world unit in the fixed-point grid (coordinates are hundredths).
pub const UNIT: i64 = 100;

/// A position in the world, in hundredths of a unit. `y` is the vertical axis.
#[derive(Clone, Copy, Debug, PartialEq, Eq, Structural)]
pub struct Point {
    pub x: i32,
    pub y: i32,
    pub z: i32,
}

/// A vector on the horizontal plane (its vertical component is zero).
#[derive(Clone, Copy, Debug, PartialEq, Eq, Structural)]
pub struct Flat {
    pub x: i64,
    pub z: i64,
}

pub open spec fn sq(v: int) -> int {
    v * v
}

/// Squared distance in space.
pub open spec fn dist_sq(a: Point, b: Point) -> int {
    sq(a.x - b.x) + sq(a.y - b.y) + sq(a.z - b.z)
}

/// Squared distance on the horizontal plane, ignoring height.
pub open spec fn flat_dist_sq(a: Point, b: Point) -> int {
    sq(a.x - b.x) + sq(a.z - b.z)
}

/// The horizontal part of the vector from `from` to `to`.
pub open spec fn flat_between(from: Point, to: Point) -> Flat {
    Flat { x: (to.x - from.x) as i64, z: (to.z - from.z) as i64 }
}

proof fn lemma_sq_bounds(v: int)
    requires
        -0x1_0000_0000 <= v <= 0x1_0000_0000,
    ensures
        0 <= sq(v) <= 0x1_0000_0000_0000_0000,
{
    assert(0 <= v * v <= 0x1_0000_0000_0000_0000) by (nonlinear_arith)
        requires
            -0x1_0000_0000 <= v <= 0x1_0000_0000,
    ;
}

/// Squared distances are never negative and fit comfortably in 128 bits.
pub proof fn lemma_dist_sq_bounds(a: Point, b: Point)
    ensures
        0 <= flat_dist_sq(a, b) <= 0x2_0000_0000_0000_0000,
        0 <= dist_sq(a, b) <= 0x3_0000_0000_0000_0000,
        dist_sq(a, b) == flat_dist_sq(a, b) + sq(a.y - b.y),
{
    lemma_sq_bounds(a.x - b.x);
    lemma_sq_bounds(a.y - b.y);
    lemma_sq_bounds(a.z - b.z);
}

fn square(v: i64) -> (r: u128)
    requires
        -0x1_0000_0000 <= v <= 0x1_0000_0000,
    ensures
        r == sq(v as int),
        r <= 0x1_0000_0000_0000_0000,
{
    proof {
        lemma_sq_bounds(v as int);
    }
    let w = v as i128;
    (w * w) as u128
}

/// Squared distance between two points in space.
pub fn distance_sq(a: Point, b: Point) -> (r: u128)
    ensures
        r == dist_sq(a, b),
        r <= 0x3_0000_0000_0000_0000,
{
    square(a.x as i64 - b.x as i64) + square(a.y as i64 - b.y as i64) + square(
        a.z as i64 - b.z as i64,
    )
}

/// Squared distance between two points on the horizontal plane.
pub fn flat_distance_sq(a: Point, b: Point) -> (r: u128)
    ensures
        r == flat_dist_sq(a, b),
        r <= 0x2_0000_0000_0000_0000,
{
    square(a.x as i64 - b.x as i64) + square(a.z as i64 - b.z as i64)
}

/// The horizontal part of the vector from `from` to `to`.
pub fn flat_offset(from: Point, to: Point) -> (r: Flat)
    ensures
        r == flat_between(from, to),
{
    Flat { x: to.x as i64 - from.x as i64, z: to.z as i64 - from.z as i64 }
}

/// The horizontal part of a vector given as a point.
pub fn flatten(v: Point) -> (r: Flat)
    ensures
        r.x == v.x,
        r.z == v.z,
{
    Flat { x: v.x as i64, z: v.z as i64 }
}

} // verus!
