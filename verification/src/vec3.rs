//! Points, directions and their exact integer geometry. A `Vec3` holds three
//! Q16.16 components; the spec-level products (dot, cross) are stated over the
//! raw mathematical integers, so every geometric predicate in the library is
//! exact.

use vstd::prelude::*;

verus! {

/// Bound on the world-space coordinates the pipeline accepts (4096.0 in
/// Q16.16): geometry or camera positions beyond it are skipped, never
/// miscomputed.
pub const WORLD_LIMIT: i64 = 0x1000_0000;

/// A 3-component point or direction with Q16.16 components.
#[derive(Clone, Copy, PartialEq, Eq, Structural, Debug)]
pub struct Vec3 {
    pub x: i64,
    pub y: i64,
    pub z: i64,
}

impl Vec3 {
    pub fn new(x: i64, y: i64, z: i64) -> (r: Vec3)
        ensures
            r == (Vec3 { x, y, z }),
    {
        Vec3 { x, y, z }
    }

    /// The point at the origin of the space.
    pub fn origin() -> (r: Vec3)
        ensures
            r == (Vec3 { x: 0i64, y: 0i64, z: 0i64 }),
    {
        Vec3 { x: 0, y: 0, z: 0 }
    }

    /// Whether every component's magnitude stays within `lim`.
    pub open spec fn within(self, lim: int) -> bool {
        &&& -lim <= self.x <= lim
        &&& -lim <= self.y <= lim
        &&& -lim <= self.z <= lim
    }

    /// The runtime counterpart of `within`.
    pub fn within_c(&self, lim: i64) -> (b: bool)
        requires
            0 <= lim,
        ensures
            b == self.within(lim as int),
    {
        -lim <= self.x && self.x <= lim && -lim <= self.y && self.y <= lim
            && -lim <= self.z && self.z <= lim
    }
}

/// The x component of the cross product `a x b`, over raw integers
/// (the result carries a doubled Q16.16 scale).
pub open spec fn cross_x(ax: int, ay: int, az: int, bx: int, by: int, bz: int) -> int {
    ay * bz - az * by
}

/// The y component of the cross product `a x b`.
pub open spec fn cross_y(ax: int, ay: int, az: int, bx: int, by: int, bz: int) -> int {
    az * bx - ax * bz
}

/// The z component of the cross product `a x b`.
pub open spec fn cross_z(ax: int, ay: int, az: int, bx: int, by: int, bz: int) -> int {
    ax * by - ay * bx
}

/// The dot product over raw integers.
pub open spec fn dot3(ax: int, ay: int, az: int, bx: int, by: int, bz: int) -> int {
    ax * bx + ay * by + az * bz
}

} // verus!
