//! Fixed-point coordinates.
//!
//! Positions, heights and angles are whole numbers of thousandths: the
//! world unit is [`UNIT`] steps long. Sums saturate at the ends of the
//! `i64` range, so every operation is total.

use vstd::prelude::*;

verus! {

/// Number of fixed-point steps in one world unit.
pub const UNIT: i64 = 1000;

/// The value of `v` after saturation to the range of `i64`.
pub open spec fn clip(v: int) -> int {
    if v < i64::MIN as int {
        i64::MIN as int
    } else if v > i64::MAX as int {
        i64::MAX as int
    } else {
        v
    }
}

/// Adds two coordinates, saturating at the ends of the `i64` range.
pub fn sat_add(a: i64, b: i64) -> (r: i64)
    ensures
        r as int == clip(a as int + b as int),
{
    match a.checked_add(b) {
        Some(v) => v,
        None => if a < 0 { i64::MIN } else { i64::MAX },
    }
}

/// Subtracts `b` from `a`, saturating at the ends of the `i64` range.
pub fn sat_sub(a: i64, b: i64) -> (r: i64)
    ensures
        r as int == clip(a as int - b as int),
{
    match a.checked_sub(b) {
        Some(v) => v,
        None => if a < 0 { i64::MIN } else { i64::MAX },
    }
}

/// A point or a displacement in fixed-point world coordinates.
#[derive(Clone, Copy, Debug, PartialEq, Eq, Structural)]
pub struct Vec3 {
    pub x: i64,
    pub y: i64,
    pub z: i64,
}

impl Vec3 {
    /// Componentwise saturating sum.
    pub open spec fn plus(self, other: Vec3) -> Vec3 {
        Vec3 {
            x: clip(self.x as int + other.x as int) as i64,
            y: clip(self.y as int + other.y as int) as i64,
            z: clip(self.z as int + other.z as int) as i64,
        }
    }

    /// Componentwise saturating difference.
    pub open spec fn minus(self, other: Vec3) -> Vec3 {
        Vec3 {
            x: clip(self.x as int - other.x as int) as i64,
            y: clip(self.y as int - other.y as int) as i64,
            z: clip(self.z as int - other.z as int) as i64,
        }
    }

    /// The same displacement with its vertical part removed.
    pub open spec fn level(self) -> Vec3 {
        Vec3 { x: self.x, y: 0, z: self.z }
    }

    pub fn new(x: i64, y: i64, z: i64) -> (r: Vec3)
        ensures
            r == (Vec3 { x, y, z }),
    {
        Vec3 { x, y, z }
    }

    pub fn zero() -> (r: Vec3)
        ensures
            r == (Vec3 { x: 0, y: 0, z: 0 }),
    {
        Vec3 { x: 0, y: 0, z: 0 }
    }

    /// `self + other`, each component saturating.
    pub fn moved_by(self, other: Vec3) -> (r: Vec3)
        ensures
            r == self.plus(other),
    {
        Vec3 { x: sat_add(self.x, other.x), y: sat_add(self.y, other.y), z: sat_add(self.z, other.z) }
    }

    /// `self - other`, each component saturating.
    pub fn displaced_from(self, other: Vec3) -> (r: Vec3)
        ensures
            r == self.minus(other),
    {
        Vec3 { x: sat_sub(self.x, other.x), y: sat_sub(self.y, other.y), z: sat_sub(self.z, other.z) }
    }

    /// Drops the vertical component.
    pub fn flattened(self) -> (r: Vec3)
        ensures
            r == self.level(),
    {
        Vec3 { x: self.x, y: 0, z: self.z }
    }
}

} // verus!
