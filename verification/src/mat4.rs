//! 4x4 matrices over Q16.16 scalars, in row-major order. `MatS` is the
//! spec-level matrix with unbounded integer entries; `Mat4` is the machine
//! matrix. Every operation states its result entry by entry as an exact
//! integer formula, and the checked operations return `None` exactly where an
//! entry would leave the range the library keeps matrices in.

use vstd::prelude::*;
use crate::fixed::{FX_ONE, iabs, div_t, fits_i64, lemma_abs_mul_bound, lemma_div_t_bound, idiv_t};
use crate::vec3::Vec3;

verus! {

/// Bound kept on the entries of every stored matrix.
pub const MAT_LIMIT: i64 = 0x4000_0000_0000;

/// Tighter bound kept on the entries of every pose matrix (a view,
/// projection or model transform), so that products of two of them always
/// stay within `MAT_LIMIT`.
pub const POSE_LIMIT: i64 = 0x4000_0000;

/// Bound on point coordinates carried through a transform.
pub const COORD_LIMIT: i64 = 0x10_0000_0000;

/// The spec-level matrix: entry `mIJ` sits in row I, column J.
pub struct MatS {
    pub m00: int, pub m01: int, pub m02: int, pub m03: int,
    pub m10: int, pub m11: int, pub m12: int, pub m13: int,
    pub m20: int, pub m21: int, pub m22: int, pub m23: int,
    pub m30: int, pub m31: int, pub m32: int, pub m33: int,
}

/// The machine matrix.
#[derive(Clone, Copy, PartialEq, Eq, Structural, Debug)]
pub struct Mat4 {
    pub m00: i64, pub m01: i64, pub m02: i64, pub m03: i64,
    pub m10: i64, pub m11: i64, pub m12: i64, pub m13: i64,
    pub m20: i64, pub m21: i64, pub m22: i64, pub m23: i64,
    pub m30: i64, pub m31: i64, pub m32: i64, pub m33: i64,
}

impl Mat4 {
    /// The mathematical value of this matrix.
    pub open spec fn s(self) -> MatS {
        MatS {
            m00: self.m00 as int, m01: self.m01 as int, m02: self.m02 as int, m03: self.m03 as int,
            m10: self.m10 as int, m11: self.m11 as int, m12: self.m12 as int, m13: self.m13 as int,
            m20: self.m20 as int, m21: self.m21 as int, m22: self.m22 as int, m23: self.m23 as int,
            m30: self.m30 as int, m31: self.m31 as int, m32: self.m32 as int, m33: self.m33 as int,
        }
    }
}

/// The machine matrix a spec matrix denotes; entries must be in range for
/// this to be faithful.
pub open spec fn mat_of(m: MatS) -> Mat4 {
    Mat4 {
        m00: m.m00 as i64, m01: m.m01 as i64, m02: m.m02 as i64, m03: m.m03 as i64,
        m10: m.m10 as i64, m11: m.m11 as i64, m12: m.m12 as i64, m13: m.m13 as i64,
        m20: m.m20 as i64, m21: m.m21 as i64, m22: m.m22 as i64, m23: m.m23 as i64,
        m30: m.m30 as i64, m31: m.m31 as i64, m32: m.m32 as i64, m33: m.m33 as i64,
    }
}

/// Whether every entry's magnitude stays within `lim`.
pub open spec fn mat_within(m: MatS, lim: int) -> bool {
    &&& iabs(m.m00) <= lim && iabs(m.m01) <= lim && iabs(m.m02) <= lim && iabs(m.m03) <= lim
    &&& iabs(m.m10) <= lim && iabs(m.m11) <= lim && iabs(m.m12) <= lim && iabs(m.m13) <= lim
    &&& iabs(m.m20) <= lim && iabs(m.m21) <= lim && iabs(m.m22) <= lim && iabs(m.m23) <= lim
    &&& iabs(m.m30) <= lim && iabs(m.m31) <= lim && iabs(m.m32) <= lim && iabs(m.m33) <= lim
}

/// Whether the last row is `(0, 0, 0, 1)`, so the matrix is affine and a
/// transformed point needs no perspective division.
pub open spec fn mat_affine(m: MatS) -> bool {
    m.m30 == 0 && m.m31 == 0 && m.m32 == 0 && m.m33 == FX_ONE as int
}

/// A four-term dot product over raw integers.
pub open spec fn dot4(a0: int, a1: int, a2: int, a3: int, b0: int, b1: int, b2: int, b3: int) -> int {
    a0 * b0 + a1 * b1 + a2 * b2 + a3 * b3
}

/// One entry of a Q16.16 matrix product.
pub open spec fn mat_entry_s(
    a0: int, a1: int, a2: int, a3: int,
    b0: int, b1: int, b2: int, b3: int,
) -> int {
    div_t(dot4(a0, a1, a2, a3, b0, b1, b2, b3), FX_ONE as int)
}

/// The Q16.16 matrix product `a * b`.
pub open spec fn mat_mul_s(a: MatS, b: MatS) -> MatS {
    MatS {
        m00: mat_entry_s(a.m00, a.m01, a.m02, a.m03, b.m00, b.m10, b.m20, b.m30),
        m01: mat_entry_s(a.m00, a.m01, a.m02, a.m03, b.m01, b.m11, b.m21, b.m31),
        m02: mat_entry_s(a.m00, a.m01, a.m02, a.m03, b.m02, b.m12, b.m22, b.m32),
        m03: mat_entry_s(a.m00, a.m01, a.m02, a.m03, b.m03, b.m13, b.m23, b.m33),
        m10: mat_entry_s(a.m10, a.m11, a.m12, a.m13, b.m00, b.m10, b.m20, b.m30),
        m11: mat_entry_s(a.m10, a.m11, a.m12, a.m13, b.m01, b.m11, b.m21, b.m31),
        m12: mat_entry_s(a.m10, a.m11, a.m12, a.m13, b.m02, b.m12, b.m22, b.m32),
        m13: mat_entry_s(a.m10, a.m11, a.m12, a.m13, b.m03, b.m13, b.m23, b.m33),
        m20: mat_entry_s(a.m20, a.m21, a.m22, a.m23, b.m00, b.m10, b.m20, b.m30),
        m21: mat_entry_s(a.m20, a.m21, a.m22, a.m23, b.m01, b.m11, b.m21, b.m31),
        m22: mat_entry_s(a.m20, a.m21, a.m22, a.m23, b.m02, b.m12, b.m22, b.m32),
        m23: mat_entry_s(a.m20, a.m21, a.m22, a.m23, b.m03, b.m13, b.m23, b.m33),
        m30: mat_entry_s(a.m30, a.m31, a.m32, a.m33, b.m00, b.m10, b.m20, b.m30),
        m31: mat_entry_s(a.m30, a.m31, a.m32, a.m33, b.m01, b.m11, b.m21, b.m31),
        m32: mat_entry_s(a.m30, a.m31, a.m32, a.m33, b.m02, b.m12, b.m22, b.m32),
        m33: mat_entry_s(a.m30, a.m31, a.m32, a.m33, b.m03, b.m13, b.m23, b.m33),
    }
}

/// The identity transform.
pub open spec fn ident_s() -> MatS {
    MatS {
        m00: FX_ONE as int, m01: 0, m02: 0, m03: 0,
        m10: 0, m11: FX_ONE as int, m12: 0, m13: 0,
        m20: 0, m21: 0, m22: FX_ONE as int, m23: 0,
        m30: 0, m31: 0, m32: 0, m33: FX_ONE as int,
    }
}

/// A translation by `(dx, dy, dz)`.
pub open spec fn translation_s(dx: int, dy: int, dz: int) -> MatS {
    MatS {
        m00: FX_ONE as int, m01: 0, m02: 0, m03: dx,
        m10: 0, m11: FX_ONE as int, m12: 0, m13: dy,
        m20: 0, m21: 0, m22: FX_ONE as int, m23: dz,
        m30: 0, m31: 0, m32: 0, m33: FX_ONE as int,
    }
}

/// A uniform scaling by `f`.
pub open spec fn scaling_s(f: int) -> MatS {
    MatS {
        m00: f, m01: 0, m02: 0, m03: 0,
        m10: 0, m11: f, m12: 0, m13: 0,
        m20: 0, m21: 0, m22: f, m23: 0,
        m30: 0, m31: 0, m32: 0, m33: FX_ONE as int,
    }
}

/// A rotation about the x axis with the given sine and cosine.
pub open spec fn rot_x_s(s: int, c: int) -> MatS {
    MatS {
        m00: FX_ONE as int, m01: 0, m02: 0, m03: 0,
        m10: 0, m11: c, m12: -s, m13: 0,
        m20: 0, m21: s, m22: c, m23: 0,
        m30: 0, m31: 0, m32: 0, m33: FX_ONE as int,
    }
}

/// A rotation about the y axis with the given sine and cosine.
pub open spec fn rot_y_s(s: int, c: int) -> MatS {
    MatS {
        m00: c, m01: 0, m02: s, m03: 0,
        m10: 0, m11: FX_ONE as int, m12: 0, m13: 0,
        m20: -s, m21: 0, m22: c, m23: 0,
        m30: 0, m31: 0, m32: 0, m33: FX_ONE as int,
    }
}

/// A rotation about the z axis with the given sine and cosine.
pub open spec fn rot_z_s(s: int, c: int) -> MatS {
    MatS {
        m00: c, m01: -s, m02: 0, m03: 0,
        m10: s, m11: c, m12: 0, m13: 0,
        m20: 0, m21: 0, m22: FX_ONE as int, m23: 0,
        m30: 0, m31: 0, m32: 0, m33: FX_ONE as int,
    }
}

/// One row of a transformed point: the row is applied to `(p, 1)` and the
/// doubled Q16.16 scale is divided back out in a single truncation.
pub open spec fn tp_row_s(m0: int, m1: int, m2: int, m3: int, px: int, py: int, pz: int) -> int {
    div_t(m0 * px + m1 * py + m2 * pz + m3 * (FX_ONE as int), FX_ONE as int)
}

/// One row of a transformed direction: only the linear part acts.
pub open spec fn td_row_s(m0: int, m1: int, m2: int, px: int, py: int, pz: int) -> int {
    div_t(m0 * px + m1 * py + m2 * pz, FX_ONE as int)
}

/// A point taken through a projective transform: the clip-space vector, then
/// the division by its w component. `None` where w is not positive (the
/// point is at or behind the eye plane) or a coordinate leaves `COORD_LIMIT`.
pub open spec fn tp_s(m: MatS, px: int, py: int, pz: int) -> Option<(int, int, int)> {
    let cx = tp_row_s(m.m00, m.m01, m.m02, m.m03, px, py, pz);
    let cy = tp_row_s(m.m10, m.m11, m.m12, m.m13, px, py, pz);
    let cz = tp_row_s(m.m20, m.m21, m.m22, m.m23, px, py, pz);
    let cw = tp_row_s(m.m30, m.m31, m.m32, m.m33, px, py, pz);
    if cw <= 0 {
        None
    } else {
        let nx = div_t(cx * (FX_ONE as int), cw);
        let ny = div_t(cy * (FX_ONE as int), cw);
        let nz = div_t(cz * (FX_ONE as int), cw);
        if iabs(nx) <= COORD_LIMIT as int && iabs(ny) <= COORD_LIMIT as int && iabs(nz)
            <= COORD_LIMIT as int {
            Some((nx, ny, nz))
        } else {
            None
        }
    }
}

/// A direction taken through the linear part of a transform. `None` where a
/// component leaves `COORD_LIMIT`.
pub open spec fn td_s(m: MatS, px: int, py: int, pz: int) -> Option<(int, int, int)> {
    let dx = td_row_s(m.m00, m.m01, m.m02, px, py, pz);
    let dy = td_row_s(m.m10, m.m11, m.m12, px, py, pz);
    let dz = td_row_s(m.m20, m.m21, m.m22, px, py, pz);
    if iabs(dx) <= COORD_LIMIT as int && iabs(dy) <= COORD_LIMIT as int && iabs(dz)
        <= COORD_LIMIT as int {
        Some((dx, dy, dz))
    } else {
        None
    }
}

/// The magnitude of one product entry is bounded by the bounds of its factors.
proof fn lemma_entry_within(
    a0: int, a1: int, a2: int, a3: int,
    b0: int, b1: int, b2: int, b3: int,
    la: int, lb: int, m: int,
)
    requires
        iabs(a0) <= la && iabs(a1) <= la && iabs(a2) <= la && iabs(a3) <= la,
        iabs(b0) <= lb && iabs(b1) <= lb && iabs(b2) <= lb && iabs(b3) <= lb,
        0 <= la, 0 <= lb, 0 <= m,
        4 * (la * lb) <= m * (FX_ONE as int),
    ensures
        iabs(mat_entry_s(a0, a1, a2, a3, b0, b1, b2, b3)) <= m,
{
    lemma_abs_mul_bound(a0, b0, la, lb);
    lemma_abs_mul_bound(a1, b1, la, lb);
    lemma_abs_mul_bound(a2, b2, la, lb);
    lemma_abs_mul_bound(a3, b3, la, lb);
    lemma_div_t_bound(dot4(a0, a1, a2, a3, b0, b1, b2, b3), FX_ONE as int, m);
}

/// Entry bounds of two matrices carry to their product: each product entry
/// stays within `m` whenever `4 * la * lb <= m * 65536`.
pub proof fn lemma_mat_mul_within(a: MatS, b: MatS, la: int, lb: int, m: int)
    requires
        mat_within(a, la),
        mat_within(b, lb),
        0 <= la, 0 <= lb, 0 <= m,
        4 * (la * lb) <= m * (FX_ONE as int),
    ensures
        mat_within(mat_mul_s(a, b), m),
{
    lemma_entry_within(a.m00, a.m01, a.m02, a.m03, b.m00, b.m10, b.m20, b.m30, la, lb, m);
    lemma_entry_within(a.m00, a.m01, a.m02, a.m03, b.m01, b.m11, b.m21, b.m31, la, lb, m);
    lemma_entry_within(a.m00, a.m01, a.m02, a.m03, b.m02, b.m12, b.m22, b.m32, la, lb, m);
    lemma_entry_within(a.m00, a.m01, a.m02, a.m03, b.m03, b.m13, b.m23, b.m33, la, lb, m);
    lemma_entry_within(a.m10, a.m11, a.m12, a.m13, b.m00, b.m10, b.m20, b.m30, la, lb, m);
    lemma_entry_within(a.m10, a.m11, a.m12, a.m13, b.m01, b.m11, b.m21, b.m31, la, lb, m);
    lemma_entry_within(a.m10, a.m11, a.m12, a.m13, b.m02, b.m12, b.m22, b.m32, la, lb, m);
    lemma_entry_within(a.m10, a.m11, a.m12, a.m13, b.m03, b.m13, b.m23, b.m33, la, lb, m);
    lemma_entry_within(a.m20, a.m21, a.m22, a.m23, b.m00, b.m10, b.m20, b.m30, la, lb, m);
    lemma_entry_within(a.m20, a.m21, a.m22, a.m23, b.m01, b.m11, b.m21, b.m31, la, lb, m);
    lemma_entry_within(a.m20, a.m21, a.m22, a.m23, b.m02, b.m12, b.m22, b.m32, la, lb, m);
    lemma_entry_within(a.m20, a.m21, a.m22, a.m23, b.m03, b.m13, b.m23, b.m33, la, lb, m);
    lemma_entry_within(a.m30, a.m31, a.m32, a.m33, b.m00, b.m10, b.m20, b.m30, la, lb, m);
    lemma_entry_within(a.m30, a.m31, a.m32, a.m33, b.m01, b.m11, b.m21, b.m31, la, lb, m);
    lemma_entry_within(a.m30, a.m31, a.m32, a.m33, b.m02, b.m12, b.m22, b.m32, la, lb, m);
    lemma_entry_within(a.m30, a.m31, a.m32, a.m33, b.m03, b.m13, b.m23, b.m33, la, lb, m);
}

/// The product of two affine matrices is affine.
pub proof fn lemma_mat_affine_mul(a: MatS, b: MatS)
    requires
        mat_affine(a),
        mat_affine(b),
    ensures
        mat_affine(mat_mul_s(a, b)),
{
    crate::fixed::lemma_div_t_multiple(b.m30, FX_ONE as int);
    crate::fixed::lemma_div_t_multiple(b.m31, FX_ONE as int);
    crate::fixed::lemma_div_t_multiple(b.m32, FX_ONE as int);
    crate::fixed::lemma_div_t_multiple(b.m33, FX_ONE as int);
}

/// One machine entry of a matrix product, exact in `i128`.
fn entry_c(
    a0: i64, a1: i64, a2: i64, a3: i64,
    b0: i64, b1: i64, b2: i64, b3: i64,
) -> (r: i128)
    requires
        iabs(a0 as int) <= MAT_LIMIT as int && iabs(a1 as int) <= MAT_LIMIT as int,
        iabs(a2 as int) <= MAT_LIMIT as int && iabs(a3 as int) <= MAT_LIMIT as int,
        iabs(b0 as int) <= MAT_LIMIT as int && iabs(b1 as int) <= MAT_LIMIT as int,
        iabs(b2 as int) <= MAT_LIMIT as int && iabs(b3 as int) <= MAT_LIMIT as int,
    ensures
        r == mat_entry_s(a0 as int, a1 as int, a2 as int, a3 as int,
                         b0 as int, b1 as int, b2 as int, b3 as int),
{
    proof {
        lemma_abs_mul_bound(a0 as int, b0 as int, MAT_LIMIT as int, MAT_LIMIT as int);
        lemma_abs_mul_bound(a1 as int, b1 as int, MAT_LIMIT as int, MAT_LIMIT as int);
        lemma_abs_mul_bound(a2 as int, b2 as int, MAT_LIMIT as int, MAT_LIMIT as int);
        lemma_abs_mul_bound(a3 as int, b3 as int, MAT_LIMIT as int, MAT_LIMIT as int);
    }
    let p: i128 = (a0 as i128) * (b0 as i128) + (a1 as i128) * (b1 as i128)
        + (a2 as i128) * (b2 as i128) + (a3 as i128) * (b3 as i128);
    idiv_t(p, FX_ONE as i128)
}

/// Whether a product entry stays within the stored-matrix bound.
fn entry_fits(e: i128) -> (b: bool)
    ensures
        b == (iabs(e as int) <= MAT_LIMIT as int),
{
    -(MAT_LIMIT as i128) <= e && e <= MAT_LIMIT as i128
}

impl Mat4 {
    /// The identity transform.
    pub fn identity() -> (r: Mat4)
        ensures
            r.s() == ident_s(),
            mat_within(r.s(), POSE_LIMIT as int),
            mat_affine(r.s()),
    {
        Mat4 {
            m00: FX_ONE, m01: 0, m02: 0, m03: 0,
            m10: 0, m11: FX_ONE, m12: 0, m13: 0,
            m20: 0, m21: 0, m22: FX_ONE, m23: 0,
            m30: 0, m31: 0, m32: 0, m33: FX_ONE,
        }
    }

    /// A translation by `d`.
    pub fn translation(d: Vec3) -> (r: Mat4)
        ensures
            r.s() == translation_s(d.x as int, d.y as int, d.z as int),
    {
        Mat4 {
            m00: FX_ONE, m01: 0, m02: 0, m03: d.x,
            m10: 0, m11: FX_ONE, m12: 0, m13: d.y,
            m20: 0, m21: 0, m22: FX_ONE, m23: d.z,
            m30: 0, m31: 0, m32: 0, m33: FX_ONE,
        }
    }

    /// A uniform scaling by `f`.
    pub fn scaling(f: i64) -> (r: Mat4)
        ensures
            r.s() == scaling_s(f as int),
    {
        Mat4 {
            m00: f, m01: 0, m02: 0, m03: 0,
            m10: 0, m11: f, m12: 0, m13: 0,
            m20: 0, m21: 0, m22: f, m23: 0,
            m30: 0, m31: 0, m32: 0, m33: FX_ONE,
        }
    }

    /// A rotation about the x axis from a Q16.16 sine and cosine.
    pub fn rotation_x(s: i64, c: i64) -> (r: Mat4)
        requires
            iabs(s as int) <= FX_ONE as int,
            iabs(c as int) <= FX_ONE as int,
        ensures
            r.s() == rot_x_s(s as int, c as int),
    {
        Mat4 {
            m00: FX_ONE, m01: 0, m02: 0, m03: 0,
            m10: 0, m11: c, m12: -s, m13: 0,
            m20: 0, m21: s, m22: c, m23: 0,
            m30: 0, m31: 0, m32: 0, m33: FX_ONE,
        }
    }

    /// A rotation about the y axis from a Q16.16 sine and cosine.
    pub fn rotation_y(s: i64, c: i64) -> (r: Mat4)
        requires
            iabs(s as int) <= FX_ONE as int,
            iabs(c as int) <= FX_ONE as int,
        ensures
            r.s() == rot_y_s(s as int, c as int),
    {
        Mat4 {
            m00: c, m01: 0, m02: s, m03: 0,
            m10: 0, m11: FX_ONE, m12: 0, m13: 0,
            m20: -s, m21: 0, m22: c, m23: 0,
            m30: 0, m31: 0, m32: 0, m33: FX_ONE,
        }
    }

    /// A rotation about the z axis from a Q16.16 sine and cosine.
    pub fn rotation_z(s: i64, c: i64) -> (r: Mat4)
        requires
            iabs(s as int) <= FX_ONE as int,
            iabs(c as int) <= FX_ONE as int,
        ensures
            r.s() == rot_z_s(s as int, c as int),
    {
        Mat4 {
            m00: c, m01: -s, m02: 0, m03: 0,
            m10: s, m11: c, m12: 0, m13: 0,
            m20: 0, m21: 0, m22: FX_ONE, m23: 0,
            m30: 0, m31: 0, m32: 0, m33: FX_ONE,
        }
    }

    /// Whether every entry's magnitude stays within `lim`.
    pub fn within_c(&self, lim: i64) -> (b: bool)
        requires
            0 <= lim,
        ensures
            b == mat_within(self.s(), lim as int),
    {
        -lim <= self.m00 && self.m00 <= lim && -lim <= self.m01 && self.m01 <= lim
            && -lim <= self.m02 && self.m02 <= lim && -lim <= self.m03 && self.m03 <= lim
            && -lim <= self.m10 && self.m10 <= lim && -lim <= self.m11 && self.m11 <= lim
            && -lim <= self.m12 && self.m12 <= lim && -lim <= self.m13 && self.m13 <= lim
            && -lim <= self.m20 && self.m20 <= lim && -lim <= self.m21 && self.m21 <= lim
            && -lim <= self.m22 && self.m22 <= lim && -lim <= self.m23 && self.m23 <= lim
            && -lim <= self.m30 && self.m30 <= lim && -lim <= self.m31 && self.m31 <= lim
            && -lim <= self.m32 && self.m32 <= lim && -lim <= self.m33 && self.m33 <= lim
    }

    /// The Q16.16 matrix product `self * o`, or `None` where an entry of the
    /// exact product leaves `MAT_LIMIT`.
    pub fn mul_c(&self, o: &Mat4) -> (r: Option<Mat4>)
        requires
            mat_within(self.s(), MAT_LIMIT as int),
            mat_within(o.s(), MAT_LIMIT as int),
        ensures
            r is Some <==> mat_within(mat_mul_s(self.s(), o.s()), MAT_LIMIT as int),
            r is Some ==> r->0.s() == mat_mul_s(self.s(), o.s()),
    {
        let e00 = entry_c(self.m00, self.m01, self.m02, self.m03, o.m00, o.m10, o.m20, o.m30);
        let e01 = entry_c(self.m00, self.m01, self.m02, self.m03, o.m01, o.m11, o.m21, o.m31);
        let e02 = entry_c(self.m00, self.m01, self.m02, self.m03, o.m02, o.m12, o.m22, o.m32);
        let e03 = entry_c(self.m00, self.m01, self.m02, self.m03, o.m03, o.m13, o.m23, o.m33);
        let e10 = entry_c(self.m10, self.m11, self.m12, self.m13, o.m00, o.m10, o.m20, o.m30);
        let e11 = entry_c(self.m10, self.m11, self.m12, self.m13, o.m01, o.m11, o.m21, o.m31);
        let e12 = entry_c(self.m10, self.m11, self.m12, self.m13, o.m02, o.m12, o.m22, o.m32);
        let e13 = entry_c(self.m10, self.m11, self.m12, self.m13, o.m03, o.m13, o.m23, o.m33);
        let e20 = entry_c(self.m20, self.m21, self.m22, self.m23, o.m00, o.m10, o.m20, o.m30);
        let e21 = entry_c(self.m20, self.m21, self.m22, self.m23, o.m01, o.m11, o.m21, o.m31);
        let e22 = entry_c(self.m20, self.m21, self.m22, self.m23, o.m02, o.m12, o.m22, o.m32);
        let e23 = entry_c(self.m20, self.m21, self.m22, self.m23, o.m03, o.m13, o.m23, o.m33);
        let e30 = entry_c(self.m30, self.m31, self.m32, self.m33, o.m00, o.m10, o.m20, o.m30);
        let e31 = entry_c(self.m30, self.m31, self.m32, self.m33, o.m01, o.m11, o.m21, o.m31);
        let e32 = entry_c(self.m30, self.m31, self.m32, self.m33, o.m02, o.m12, o.m22, o.m32);
        let e33 = entry_c(self.m30, self.m31, self.m32, self.m33, o.m03, o.m13, o.m23, o.m33);
        if entry_fits(e00) && entry_fits(e01) && entry_fits(e02) && entry_fits(e03)
            && entry_fits(e10) && entry_fits(e11) && entry_fits(e12) && entry_fits(e13)
            && entry_fits(e20) && entry_fits(e21) && entry_fits(e22) && entry_fits(e23)
            && entry_fits(e30) && entry_fits(e31) && entry_fits(e32) && entry_fits(e33) {
            Some(Mat4 {
                m00: e00 as i64, m01: e01 as i64, m02: e02 as i64, m03: e03 as i64,
                m10: e10 as i64, m11: e11 as i64, m12: e12 as i64, m13: e13 as i64,
                m20: e20 as i64, m21: e21 as i64, m22: e22 as i64, m23: e23 as i64,
                m30: e30 as i64, m31: e31 as i64, m32: e32 as i64, m33: e33 as i64,
            })
        } else {
            None
        }
    }

    /// `p` taken through this transform as a point, with the division by the
    /// resulting w component.
    pub fn transform_point_c(&self, p: Vec3) -> (r: Option<Vec3>)
        requires
            mat_within(self.s(), MAT_LIMIT as int),
            p.within(COORD_LIMIT as int),
        ensures
            match r {
                Some(q) => tp_s(self.s(), p.x as int, p.y as int, p.z as int)
                    == Some((q.x as int, q.y as int, q.z as int)),
                None => tp_s(self.s(), p.x as int, p.y as int, p.z as int) is None,
            },
    {
        let cx = row_point(self.m00, self.m01, self.m02, self.m03, p.x, p.y, p.z);
        let cy = row_point(self.m10, self.m11, self.m12, self.m13, p.x, p.y, p.z);
        let cz = row_point(self.m20, self.m21, self.m22, self.m23, p.x, p.y, p.z);
        let cw = row_point(self.m30, self.m31, self.m32, self.m33, p.x, p.y, p.z);
        if cw <= 0 {
            return None;
        }
        proof {
            lemma_abs_mul_bound(cx as int, FX_ONE as int, 0x4000_0000_0000_0000_0000 as int, 0x1_0000 as int);
            lemma_abs_mul_bound(cy as int, FX_ONE as int, 0x4000_0000_0000_0000_0000 as int, 0x1_0000 as int);
            lemma_abs_mul_bound(cz as int, FX_ONE as int, 0x4000_0000_0000_0000_0000 as int, 0x1_0000 as int);
        }
        let nx = idiv_t(cx * (FX_ONE as i128), cw);
        let ny = idiv_t(cy * (FX_ONE as i128), cw);
        let nz = idiv_t(cz * (FX_ONE as i128), cw);
        let lim: i128 = COORD_LIMIT as i128;
        if -lim <= nx && nx <= lim && -lim <= ny && ny <= lim && -lim <= nz && nz <= lim {
            Some(Vec3 { x: nx as i64, y: ny as i64, z: nz as i64 })
        } else {
            None
        }
    }

    /// `p` taken through the linear part of this transform, as a direction.
    pub fn transform_dir_c(&self, p: Vec3) -> (r: Option<Vec3>)
        requires
            mat_within(self.s(), MAT_LIMIT as int),
            p.within(COORD_LIMIT as int),
        ensures
            match r {
                Some(q) => td_s(self.s(), p.x as int, p.y as int, p.z as int)
                    == Some((q.x as int, q.y as int, q.z as int)),
                None => td_s(self.s(), p.x as int, p.y as int, p.z as int) is None,
            },
    {
        let dx = row_dir(self.m00, self.m01, self.m02, p.x, p.y, p.z);
        let dy = row_dir(self.m10, self.m11, self.m12, p.x, p.y, p.z);
        let dz = row_dir(self.m20, self.m21, self.m22, p.x, p.y, p.z);
        let lim: i128 = COORD_LIMIT as i128;
        if -lim <= dx && dx <= lim && -lim <= dy && dy <= lim && -lim <= dz && dz <= lim {
            Some(Vec3 { x: dx as i64, y: dy as i64, z: dz as i64 })
        } else {
            None
        }
    }
}

/// One row applied to a point `(p, 1)`, exact in `i128`.
fn row_point(m0: i64, m1: i64, m2: i64, m3: i64, px: i64, py: i64, pz: i64) -> (r: i128)
    requires
        iabs(m0 as int) <= MAT_LIMIT as int && iabs(m1 as int) <= MAT_LIMIT as int,
        iabs(m2 as int) <= MAT_LIMIT as int && iabs(m3 as int) <= MAT_LIMIT as int,
        iabs(px as int) <= COORD_LIMIT as int && iabs(py as int) <= COORD_LIMIT as int,
        iabs(pz as int) <= COORD_LIMIT as int,
    ensures
        r == tp_row_s(m0 as int, m1 as int, m2 as int, m3 as int, px as int, py as int, pz as int),
        iabs(r as int) <= 0x4000_0000_0000_0000_0000 as int,
{
    proof {
        lemma_abs_mul_bound(m0 as int, px as int, MAT_LIMIT as int, COORD_LIMIT as int);
        lemma_abs_mul_bound(m1 as int, py as int, MAT_LIMIT as int, COORD_LIMIT as int);
        lemma_abs_mul_bound(m2 as int, pz as int, MAT_LIMIT as int, COORD_LIMIT as int);
        lemma_abs_mul_bound(m3 as int, FX_ONE as int, MAT_LIMIT as int, FX_ONE as int);
    }
    let sum: i128 = (m0 as i128) * (px as i128) + (m1 as i128) * (py as i128)
        + (m2 as i128) * (pz as i128) + (m3 as i128) * (FX_ONE as i128);
    let r = idiv_t(sum, FX_ONE as i128);
    proof {
        lemma_div_t_bound(sum as int, FX_ONE as int, 0x4000_0000_0000_0000_0000 as int);
    }
    r
}

/// One row applied to a direction, exact in `i128`.
fn row_dir(m0: i64, m1: i64, m2: i64, px: i64, py: i64, pz: i64) -> (r: i128)
    requires
        iabs(m0 as int) <= MAT_LIMIT as int && iabs(m1 as int) <= MAT_LIMIT as int,
        iabs(m2 as int) <= MAT_LIMIT as int,
        iabs(px as int) <= COORD_LIMIT as int && iabs(py as int) <= COORD_LIMIT as int,
        iabs(pz as int) <= COORD_LIMIT as int,
    ensures
        r == td_row_s(m0 as int, m1 as int, m2 as int, px as int, py as int, pz as int),
{
    proof {
        lemma_abs_mul_bound(m0 as int, px as int, MAT_LIMIT as int, COORD_LIMIT as int);
        lemma_abs_mul_bound(m1 as int, py as int, MAT_LIMIT as int, COORD_LIMIT as int);
        lemma_abs_mul_bound(m2 as int, pz as int, MAT_LIMIT as int, COORD_LIMIT as int);
    }
    let sum: i128 = (m0 as i128) * (px as i128) + (m1 as i128) * (py as i128)
        + (m2 as i128) * (pz as i128);
    idiv_t(sum, FX_ONE as i128)
}

} // verus!
