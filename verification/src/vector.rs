//! Fixed-point vectors.
//!
//! `Vec3` is the executable three-component vector (z is used only for
//! draw order by the renderer).  `V3i` is its unbounded spec-level
//! counterpart, used to state the arithmetic of a frame step exactly even
//! where an intermediate value would not fit an `i64`.

use vstd::prelude::*;

use crate::fixed::{fmul, fx_mul, in_scalar, MAX_FORCE, MAX_OP, MAX_WIDE};

verus! {

#[derive(Clone, Copy, PartialEq, Eq, Structural, Debug)]
pub struct Vec3 {
    pub x: i64,
    pub y: i64,
    pub z: i64,
}

#[derive(Clone, Copy, PartialEq, Eq, Structural, Debug)]
pub struct Vec2 {
    pub x: i64,
    pub y: i64,
}

/// Spec-level vector of unbounded integers.
pub ghost struct V3i {
    pub x: int,
    pub y: int,
    pub z: int,
}

pub open spec fn v3i(v: Vec3) -> V3i {
    V3i { x: v.x as int, y: v.y as int, z: v.z as int }
}

pub open spec fn v3i_zero() -> V3i {
    V3i { x: 0, y: 0, z: 0 }
}

pub open spec fn vadd(a: V3i, b: V3i) -> V3i {
    V3i { x: a.x + b.x, y: a.y + b.y, z: a.z + b.z }
}

/// Fixed-point scaling of a vector by a scalar.
pub open spec fn vscale(a: V3i, s: int) -> V3i {
    V3i { x: fmul(a.x, s), y: fmul(a.y, s), z: fmul(a.z, s) }
}

pub open spec fn v3i_in_scalar(a: V3i) -> bool {
    in_scalar(a.x) && in_scalar(a.y) && in_scalar(a.z)
}

/// The executable vector holding a spec-level vector whose components fit.
pub open spec fn to_v3(a: V3i) -> Vec3
    recommends
        i64::MIN <= a.x <= i64::MAX,
        i64::MIN <= a.y <= i64::MAX,
        i64::MIN <= a.z <= i64::MAX,
{
    Vec3 { x: a.x as i64, y: a.y as i64, z: a.z as i64 }
}

impl Vec3 {
    pub fn zero() -> (v: Vec3)
        ensures
            v == (Vec3 { x: 0, y: 0, z: 0 }),
    {
        Vec3 { x: 0, y: 0, z: 0 }
    }

    /// Componentwise sum.
    pub fn plus(self, o: Vec3) -> (r: Vec3)
        requires
            -MAX_WIDE <= self.x + o.x <= MAX_WIDE,
            -MAX_WIDE <= self.y + o.y <= MAX_WIDE,
            -MAX_WIDE <= self.z + o.z <= MAX_WIDE,
        ensures
            v3i(r) == vadd(v3i(self), v3i(o)),
    {
        Vec3 { x: self.x + o.x, y: self.y + o.y, z: self.z + o.z }
    }

    /// Componentwise fixed-point scaling.
    pub fn scaled(self, s: i64) -> (r: Vec3)
        requires
            -MAX_OP <= self.x <= MAX_OP,
            -MAX_OP <= self.y <= MAX_OP,
            -MAX_OP <= self.z <= MAX_OP,
            -MAX_OP <= s <= MAX_OP,
        ensures
            v3i(r) == vscale(v3i(self), s as int),
            (-2_000_000_000 <= self.x <= 2_000_000_000 && -2_000_000_000 <= self.y
                <= 2_000_000_000 && -2_000_000_000 <= self.z <= 2_000_000_000 && -2_000_000_000
                <= s <= 2_000_000_000) ==> (-MAX_FORCE <= r.x <= MAX_FORCE && -MAX_FORCE <= r.y
                <= MAX_FORCE && -MAX_FORCE <= r.z <= MAX_FORCE),
    {
        Vec3 { x: fx_mul(self.x, s), y: fx_mul(self.y, s), z: fx_mul(self.z, s) }
    }
}

} // verus!
