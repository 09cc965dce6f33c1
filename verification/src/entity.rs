//! Snapshots of dynamic entities and exact velocity averaging.

use vstd::prelude::*;

use crate::category::EnemyType;
use crate::geometry::Point;

verus! {

/// A 2D velocity in fixed-point world units per second.
#[derive(Clone, Copy, PartialEq, Eq, Structural, Debug)]
pub struct Velocity {
    pub x: i32,
    pub y: i32,
}

/// A reference to a dynamic entity, snapshotted at the moment containment is
/// evaluated for a loop: its identity, category, position and velocity.
#[derive(Clone, Copy, PartialEq, Eq, Structural, Debug)]
pub struct CapturedEntity {
    pub entity: u64,
    pub typ: EnemyType,
    pub pos: Point,
    pub vel: Velocity,
}

/// The mean of two velocities, each component divided (Euclidean) by two.
pub open spec fn spec_vel_mean2(a: Velocity, b: Velocity) -> Velocity {
    Velocity { x: (((a.x + b.x) / 2) as i32), y: (((a.y + b.y) / 2) as i32) }
}

/// The mean of three velocities, each component divided (Euclidean) by
/// three.
pub open spec fn spec_vel_mean3(a: Velocity, b: Velocity, c: Velocity) -> Velocity {
    Velocity { x: (((a.x + b.x + c.x) / 3) as i32), y: (((a.y + b.y + c.y) / 3) as i32) }
}

/// The midpoint of two positions, each coordinate divided (Euclidean) by
/// two.
pub open spec fn spec_pos_mean2(a: Point, b: Point) -> Point {
    Point { x: (((a.x + b.x) / 2) as i32), y: (((a.y + b.y) / 2) as i32) }
}

/// The mean of three positions, each coordinate divided (Euclidean) by
/// three.
pub open spec fn spec_pos_mean3(a: Point, b: Point, c: Point) -> Point {
    Point { x: (((a.x + b.x + c.x) / 3) as i32), y: (((a.y + b.y + c.y) / 3) as i32) }
}

/// Computes the midpoint of two positions.
pub fn pos_mean2(a: Point, b: Point) -> (r: Point)
    ensures
        r == spec_pos_mean2(a, b),
{
    let x = crate::geometry::div_euclid_i128(a.x as i128 + b.x as i128, 2);
    let y = crate::geometry::div_euclid_i128(a.y as i128 + b.y as i128, 2);
    proof {
        crate::geometry::lemma_div_between(a.x + b.x, 2, -0x8000_0000, 0x7fff_ffff);
        crate::geometry::lemma_div_between(a.y + b.y, 2, -0x8000_0000, 0x7fff_ffff);
    }
    Point { x: x as i32, y: y as i32 }
}

/// Computes the mean of three positions.
pub fn pos_mean3(a: Point, b: Point, c: Point) -> (r: Point)
    ensures
        r == spec_pos_mean3(a, b, c),
{
    let x = crate::geometry::div_euclid_i128(a.x as i128 + b.x as i128 + c.x as i128, 3);
    let y = crate::geometry::div_euclid_i128(a.y as i128 + b.y as i128 + c.y as i128, 3);
    proof {
        crate::geometry::lemma_div_between(a.x + b.x + c.x, 3, -0x8000_0000, 0x7fff_ffff);
        crate::geometry::lemma_div_between(a.y + b.y + c.y, 3, -0x8000_0000, 0x7fff_ffff);
    }
    Point { x: x as i32, y: y as i32 }
}

/// Computes the mean of two velocities.
pub fn vel_mean2(a: Velocity, b: Velocity) -> (r: Velocity)
    ensures
        r == spec_vel_mean2(a, b),
{
    let x = crate::geometry::div_euclid_i128(a.x as i128 + b.x as i128, 2);
    let y = crate::geometry::div_euclid_i128(a.y as i128 + b.y as i128, 2);
    proof {
        crate::geometry::lemma_div_between(a.x + b.x, 2, -0x8000_0000, 0x7fff_ffff);
        crate::geometry::lemma_div_between(a.y + b.y, 2, -0x8000_0000, 0x7fff_ffff);
    }
    Velocity { x: x as i32, y: y as i32 }
}

/// Computes the mean of three velocities.
pub fn vel_mean3(a: Velocity, b: Velocity, c: Velocity) -> (r: Velocity)
    ensures
        r == spec_vel_mean3(a, b, c),
{
    let x = crate::geometry::div_euclid_i128(a.x as i128 + b.x as i128 + c.x as i128, 3);
    let y = crate::geometry::div_euclid_i128(a.y as i128 + b.y as i128 + c.y as i128, 3);
    proof {
        crate::geometry::lemma_div_between(a.x + b.x + c.x, 3, -0x8000_0000, 0x7fff_ffff);
        crate::geometry::lemma_div_between(a.y + b.y + c.y, 3, -0x8000_0000, 0x7fff_ffff);
    }
    Velocity { x: x as i32, y: y as i32 }
}

} // verus!
