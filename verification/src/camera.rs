//! The camera: a stored position, a view matrix, a perspective projection
//! fixed at construction, and their always-fresh composite. The projection is
//! a left-handed, reverse-depth perspective: clip w is the view-space z, and
//! the projected depth falls from 1 at the near plane towards 0 at the far
//! plane, so a nearer point always carries the greater depth value.

use vstd::prelude::*;
use crate::error::RenderError;
use crate::fixed::{
    FX_ONE, iabs, div_t, fx_div, sqrt_floor, isqrt, idiv_t,
    lemma_abs_mul_bound, lemma_div_t_bound, lemma_sqrt_lower, lemma_sqrt_floor,
};
use crate::mat4::{
    Mat4, MatS, mat_of, mat_within, mat_mul_s, ident_s, translation_s,
    rot_x_s, rot_y_s, rot_z_s, lemma_mat_mul_within,
    MAT_LIMIT, POSE_LIMIT,
};
use crate::trig::{sin_s, cos_s, sin_fx, cos_fx};
use crate::transformable::Transformable;
use crate::vec3::{Vec3, WORLD_LIMIT, cross_x, cross_y, cross_z, dot3};

verus! {

/// The squared length of a vector, over raw integers.
pub open spec fn norm_sq(vx: int, vy: int, vz: int) -> int {
    vx * vx + vy * vy + vz * vz
}

/// The unit vector of `v` in Q16.16: each component is scaled by 65536 and
/// divided by the floor of the length. `None` exactly for the zero vector.
pub open spec fn normalize_s(vx: int, vy: int, vz: int) -> Option<(int, int, int)> {
    let m = sqrt_floor(norm_sq(vx, vy, vz) as nat) as int;
    if m == 0 {
        None
    } else {
        Some((div_t(vx * (FX_ONE as int), m), div_t(vy * (FX_ONE as int), m),
              div_t(vz * (FX_ONE as int), m)))
    }
}

/// The left-handed look-at view matrix from `eye` towards `target` with the
/// world's +z axis as up: the camera's x, y and z axes as rows, each
/// translated by its negated dot product with the eye. `None` where the
/// forward vector is zero, where it is parallel to the up axis, or where an
/// entry leaves the camera's range.
pub open spec fn look_at_s(ex: int, ey: int, ez: int, tx: int, ty: int, tz: int) -> Option<MatS> {
    match normalize_s(tx - ex, ty - ey, tz - ez) {
        None => None,
        Some(z) => {
            let (zx, zy, zz) = z;
            match normalize_s(
                cross_x(0, 0, FX_ONE as int, zx, zy, zz),
                cross_y(0, 0, FX_ONE as int, zx, zy, zz),
                cross_z(0, 0, FX_ONE as int, zx, zy, zz),
            ) {
                None => None,
                Some(x) => {
                    let (xx, xy, xz) = x;
                    let yx = div_t(cross_x(zx, zy, zz, xx, xy, xz), FX_ONE as int);
                    let yy = div_t(cross_y(zx, zy, zz, xx, xy, xz), FX_ONE as int);
                    let yz = div_t(cross_z(zx, zy, zz, xx, xy, xz), FX_ONE as int);
                    let m = MatS {
                        m00: xx, m01: xy, m02: xz,
                        m03: -div_t(dot3(xx, xy, xz, ex, ey, ez), FX_ONE as int),
                        m10: yx, m11: yy, m12: yz,
                        m13: -div_t(dot3(yx, yy, yz, ex, ey, ez), FX_ONE as int),
                        m20: zx, m21: zy, m22: zz,
                        m23: -div_t(dot3(zx, zy, zz, ex, ey, ez), FX_ONE as int),
                        m30: 0, m31: 0, m32: 0, m33: FX_ONE as int,
                    };
                    if mat_within(m, POSE_LIMIT as int) {
                        Some(m)
                    } else {
                        None
                    }
                },
            }
        },
    }
}

/// The reverse-depth perspective matrix for the given aspect ratio, vertical
/// field of view (radians), and near and far planes, all Q16.16. `None`
/// exactly where a parameter is degenerate or an entry leaves the camera's
/// range.
pub open spec fn perspective_s(aspect: int, fov: int, near: int, far: int) -> Option<MatS> {
    let half = div_t(fov, 2);
    let sh = sin_s(half);
    let ch = cos_s(half);
    if aspect <= 0 || sh <= 0 || near <= 0 || far <= near {
        None
    } else {
        let f = fx_div(ch, sh);
        let e00 = fx_div(f, aspect);
        let e22 = -fx_div(near, far - near);
        let e23 = div_t(near * far, far - near);
        if iabs(e00) <= POSE_LIMIT as int && iabs(f) <= POSE_LIMIT as int
            && iabs(e22) <= POSE_LIMIT as int && iabs(e23) <= POSE_LIMIT as int {
            Some(MatS {
                m00: e00, m01: 0, m02: 0, m03: 0,
                m10: 0, m11: f, m12: 0, m13: 0,
                m20: 0, m21: 0, m22: e22, m23: e23,
                m30: 0, m31: 0, m32: FX_ONE as int, m33: 0,
            })
        } else {
            None
        }
    }
}

/// The single rotation combined from Euler angles about the x, y and z axes,
/// applied in the order `Rx * Ry * Rz`.
pub open spec fn rotation_xyz_s(x: int, y: int, z: int) -> MatS {
    mat_mul_s(
        mat_mul_s(rot_x_s(sin_s(x), cos_s(x)), rot_y_s(sin_s(y), cos_s(y))),
        rot_z_s(sin_s(z), cos_s(z)),
    )
}

/// A candidate view matrix is committed only where its entries stay within
/// the camera's range; otherwise the old view is kept unchanged.
pub open spec fn commit_view(old_view: MatS, cand: MatS) -> MatS {
    if mat_within(cand, POSE_LIMIT as int) {
        cand
    } else {
        old_view
    }
}

/// The unit vector of `v`, or `None` for the zero vector.
fn normalize_c(vx: i64, vy: i64, vz: i64) -> (r: Option<Vec3>)
    requires
        iabs(vx as int) <= 0x2_0000_0000_0000,
        iabs(vy as int) <= 0x2_0000_0000_0000,
        iabs(vz as int) <= 0x2_0000_0000_0000,
    ensures
        match r {
            Some(u) => normalize_s(vx as int, vy as int, vz as int)
                == Some((u.x as int, u.y as int, u.z as int))
                && iabs(u.x as int) <= FX_ONE as int
                && iabs(u.y as int) <= FX_ONE as int
                && iabs(u.z as int) <= FX_ONE as int,
            None => normalize_s(vx as int, vy as int, vz as int) is None,
        },
{
    proof {
        lemma_abs_mul_bound(vx as int, vx as int, 0x2_0000_0000_0000, 0x2_0000_0000_0000);
        lemma_abs_mul_bound(vy as int, vy as int, 0x2_0000_0000_0000, 0x2_0000_0000_0000);
        lemma_abs_mul_bound(vz as int, vz as int, 0x2_0000_0000_0000, 0x2_0000_0000_0000);
        assert((vx as int) * (vx as int) >= 0) by (nonlinear_arith);
        assert((vy as int) * (vy as int) >= 0) by (nonlinear_arith);
        assert((vz as int) * (vz as int) >= 0) by (nonlinear_arith);
    }
    let sq: i128 = (vx as i128) * (vx as i128) + (vy as i128) * (vy as i128)
        + (vz as i128) * (vz as i128);
    let m: u128 = isqrt(sq as u128);
    if m == 0 {
        return None;
    }
    proof {
        lemma_sqrt_floor(sq as nat);
        assert((m as nat) * (m as nat) <= sq as nat);
        assert(m as int <= 0x4_0000_0000_0000) by {
            if m as int > 0x4_0000_0000_0000 {
                assert((m as nat) * (m as nat)
                    > (0x4_0000_0000_0000 as nat) * (0x4_0000_0000_0000 as nat))
                    by (nonlinear_arith)
                    requires (m as nat) > 0x4_0000_0000_0000 as nat;
            }
        }
        assert(iabs(vx as int) * iabs(vx as int) == (vx as int) * (vx as int)) by (nonlinear_arith);
        assert(iabs(vy as int) * iabs(vy as int) == (vy as int) * (vy as int)) by (nonlinear_arith);
        assert(iabs(vz as int) * iabs(vz as int) == (vz as int) * (vz as int)) by (nonlinear_arith);
        lemma_sqrt_lower(sq as nat, iabs(vx as int) as nat);
        lemma_sqrt_lower(sq as nat, iabs(vy as int) as nat);
        lemma_sqrt_lower(sq as nat, iabs(vz as int) as nat);
        lemma_abs_mul_bound(vx as int, FX_ONE as int, m as int, FX_ONE as int);
        lemma_abs_mul_bound(vy as int, FX_ONE as int, m as int, FX_ONE as int);
        lemma_abs_mul_bound(vz as int, FX_ONE as int, m as int, FX_ONE as int);
        lemma_div_t_bound((vx as int) * (FX_ONE as int), m as int, FX_ONE as int);
        lemma_div_t_bound((vy as int) * (FX_ONE as int), m as int, FX_ONE as int);
        lemma_div_t_bound((vz as int) * (FX_ONE as int), m as int, FX_ONE as int);
    }
    let ux: i128 = idiv_t((vx as i128) * (FX_ONE as i128), m as i128);
    let uy: i128 = idiv_t((vy as i128) * (FX_ONE as i128), m as i128);
    let uz: i128 = idiv_t((vz as i128) * (FX_ONE as i128), m as i128);
    Some(Vec3 { x: ux as i64, y: uy as i64, z: uz as i64 })
}

/// A Q16.16 dot product of an axis with the eye, negated, exact in `i128`.
fn neg_axis_dot(ax: i64, ay: i64, az: i64, ex: i64, ey: i64, ez: i64) -> (r: i64)
    requires
        iabs(ax as int) <= 0x2_0000, iabs(ay as int) <= 0x2_0000, iabs(az as int) <= 0x2_0000,
        iabs(ex as int) <= WORLD_LIMIT as int, iabs(ey as int) <= WORLD_LIMIT as int,
        iabs(ez as int) <= WORLD_LIMIT as int,
    ensures
        r as int == -div_t(
            dot3(ax as int, ay as int, az as int, ex as int, ey as int, ez as int),
            FX_ONE as int),
{
    proof {
        lemma_abs_mul_bound(ax as int, ex as int, 0x2_0000, WORLD_LIMIT as int);
        lemma_abs_mul_bound(ay as int, ey as int, 0x2_0000, WORLD_LIMIT as int);
        lemma_abs_mul_bound(az as int, ez as int, 0x2_0000, WORLD_LIMIT as int);
        lemma_div_t_bound(
            dot3(ax as int, ay as int, az as int, ex as int, ey as int, ez as int),
            FX_ONE as int, 0x6000_0000);
    }
    let d: i128 = (ax as i128) * (ex as i128) + (ay as i128) * (ey as i128)
        + (az as i128) * (ez as i128);
    let q: i128 = idiv_t(d, FX_ONE as i128);
    (-q) as i64
}

/// One component of the cross product of two Q16.16 unit-scale vectors,
/// scaled back into Q16.16, exact in `i128`.
fn cross_comp_fx(a0: i64, a1: i64, b0: i64, b1: i64) -> (r: i64)
    requires
        iabs(a0 as int) <= FX_ONE as int, iabs(a1 as int) <= FX_ONE as int,
        iabs(b0 as int) <= FX_ONE as int, iabs(b1 as int) <= FX_ONE as int,
    ensures
        r as int == div_t((a0 as int) * (b1 as int) - (a1 as int) * (b0 as int), FX_ONE as int),
        iabs(r as int) <= 0x2_0000,
{
    proof {
        lemma_abs_mul_bound(a0 as int, b1 as int, FX_ONE as int, FX_ONE as int);
        lemma_abs_mul_bound(a1 as int, b0 as int, FX_ONE as int, FX_ONE as int);
        lemma_div_t_bound(
            (a0 as int) * (b1 as int) - (a1 as int) * (b0 as int),
            FX_ONE as int, 0x2_0000);
    }
    let raw: i128 = (a0 as i128) * (b1 as i128) - (a1 as i128) * (b0 as i128);
    let q: i128 = idiv_t(raw, FX_ONE as i128);
    q as i64
}

/// The look-at view matrix, or `None` where `look_at_s` gives none.
fn look_at_mat(eye: Vec3, target: Vec3) -> (r: Option<Mat4>)
    requires
        eye.within(WORLD_LIMIT as int),
        target.within(WORLD_LIMIT as int),
    ensures
        match r {
            Some(m) => look_at_s(eye.x as int, eye.y as int, eye.z as int,
                                 target.x as int, target.y as int, target.z as int)
                == Some(m.s()) && mat_within(m.s(), POSE_LIMIT as int),
            None => look_at_s(eye.x as int, eye.y as int, eye.z as int,
                              target.x as int, target.y as int, target.z as int) is None,
        },
{
    let fwd = match normalize_c(target.x - eye.x, target.y - eye.y, target.z - eye.z) {
        Some(v) => v,
        None => { return None; },
    };
    // cross((0, 0, 1), fwd) in raw doubled scale: (-fwd.y, fwd.x, 0) * 65536.
    let side = match normalize_c(-(FX_ONE * fwd.y), FX_ONE * fwd.x, 0) {
        Some(v) => v,
        None => { return None; },
    };
    let upx: i64 = cross_comp_fx(fwd.y, fwd.z, side.y, side.z);
    let upy: i64 = cross_comp_fx(fwd.z, fwd.x, side.z, side.x);
    let upz: i64 = cross_comp_fx(fwd.x, fwd.y, side.x, side.y);
    let m = Mat4 {
        m00: side.x, m01: side.y, m02: side.z,
        m03: neg_axis_dot(side.x, side.y, side.z, eye.x, eye.y, eye.z),
        m10: upx, m11: upy, m12: upz,
        m13: neg_axis_dot(upx, upy, upz, eye.x, eye.y, eye.z),
        m20: fwd.x, m21: fwd.y, m22: fwd.z,
        m23: neg_axis_dot(fwd.x, fwd.y, fwd.z, eye.x, eye.y, eye.z),
        m30: 0, m31: 0, m32: 0, m33: FX_ONE,
    };
    if m.within_c(POSE_LIMIT) {
        Some(m)
    } else {
        None
    }
}

/// The camera. The fields are public so the contracts can speak of them;
/// mutate the camera only through its methods, which keep `wf` - in
/// particular, the composite below is never stale.
pub struct Camera {
    pub position: Vec3,
    pub projection_matrix: Mat4,
    pub view_matrix: Mat4,
    pub view_projection_matrix: Mat4,
}

impl Camera {
    /// The stored position.
    pub open spec fn pos_s(self) -> Vec3 {
        self.position
    }

    /// The view matrix.
    pub open spec fn view_s(self) -> MatS {
        self.view_matrix.s()
    }

    /// The projection matrix.
    pub open spec fn proj_s(self) -> MatS {
        self.projection_matrix.s()
    }

    /// The composed view-projection matrix.
    pub open spec fn vp_s(self) -> MatS {
        self.view_projection_matrix.s()
    }

    /// Well-formedness: the view and projection entries stay within the
    /// camera's range, the position within the world's, and the composite is
    /// always exactly `projection * view` - it is never stale.
    pub open spec fn wf(self) -> bool {
        &&& mat_within(self.view_s(), POSE_LIMIT as int)
        &&& mat_within(self.proj_s(), POSE_LIMIT as int)
        &&& self.position.within(WORLD_LIMIT as int)
        &&& self.vp_s() == mat_mul_s(self.proj_s(), self.view_s())
        &&& mat_within(self.vp_s(), MAT_LIMIT as int)
    }

    /// The camera after a new view matrix is adopted (and the composite
    /// refreshed); a candidate beyond the camera's range is ignored.
    pub open spec fn with_view(self, cand: MatS) -> Camera {
        let v = commit_view(self.view_s(), cand);
        Camera {
            view_matrix: mat_of(v),
            view_projection_matrix: mat_of(mat_mul_s(self.proj_s(), v)),
            ..self
        }
    }

    /// Recomputes the composite from the stored projection and view.
    fn update_camera(&mut self)
        requires
            mat_within(old(self).view_s(), POSE_LIMIT as int),
            mat_within(old(self).proj_s(), POSE_LIMIT as int),
            old(self).position.within(WORLD_LIMIT as int),
        ensures
            *final(self) == (Camera {
                view_projection_matrix: mat_of(
                    mat_mul_s(old(self).proj_s(), old(self).view_s())),
                ..*old(self)
            }),
            final(self).wf(),
    {
        proof {
            lemma_mat_mul_within(self.proj_s(), self.view_s(),
                POSE_LIMIT as int, POSE_LIMIT as int, MAT_LIMIT as int);
        }
        let vp = match self.projection_matrix.mul_c(&self.view_matrix) {
            Some(m) => m,
            None => {
                proof {
                    assert(false);
                }
                Mat4::identity()
            },
        };
        self.view_projection_matrix = vp;
    }

    /// A camera with identity view, the given perspective projection, its
    /// position at the origin and facing +z. Fails exactly where the
    /// projection parameters are degenerate.
    pub fn new(aspect_ratio: i64, field_of_view: i64, z_near: i64, z_far: i64)
        -> (r: Result<Camera, RenderError>)
        ensures
            r is Ok <==> perspective_s(
                aspect_ratio as int, field_of_view as int, z_near as int, z_far as int) is Some,
            r is Ok ==> {
                let cam = r->Ok_0;
                &&& cam.wf()
                &&& Some(cam.proj_s()) == perspective_s(
                    aspect_ratio as int, field_of_view as int, z_near as int, z_far as int)
                &&& cam.view_s() == ident_s()
                &&& cam.pos_s() == (Vec3 { x: 0i64, y: 0i64, z: 0i64 })
            },
    {
        let halfw: i128 = idiv_t(field_of_view as i128, 2);
        proof {
            crate::fixed::lemma_div_t_abs(field_of_view as int, 2);
        }
        let half: i64 = halfw as i64;
        let sh: i64 = sin_fx(half);
        let ch: i64 = cos_fx(half);
        if aspect_ratio <= 0 || sh <= 0 || z_near <= 0 || z_far <= z_near {
            return Err(RenderError::InvalidProjection);
        }
        let f: i64 = match crate::fixed::fx_div_c(ch, sh) {
            Some(v) => v,
            None => { return Err(RenderError::InvalidProjection); },
        };
        if f < -POSE_LIMIT || f > POSE_LIMIT {
            return Err(RenderError::InvalidProjection);
        }
        let e00: i64 = match crate::fixed::fx_div_c(f, aspect_ratio) {
            Some(v) => v,
            None => { return Err(RenderError::InvalidProjection); },
        };
        if e00 < -POSE_LIMIT || e00 > POSE_LIMIT {
            return Err(RenderError::InvalidProjection);
        }
        let dw: i128 = (z_far as i128) - (z_near as i128);
        proof {
            lemma_abs_mul_bound(z_near as int, FX_ONE as int,
                0x8000_0000_0000_0000, 0x1_0000);
            lemma_abs_mul_bound(z_near as int, z_far as int,
                0x8000_0000_0000_0000, 0x8000_0000_0000_0000);
        }
        let e22n: i128 = idiv_t((z_near as i128) * (FX_ONE as i128), dw);
        if e22n < -(POSE_LIMIT as i128) || e22n > POSE_LIMIT as i128 {
            return Err(RenderError::InvalidProjection);
        }
        let e22: i64 = -(e22n as i64);
        let e23w: i128 = idiv_t((z_near as i128) * (z_far as i128), dw);
        if e23w < -(POSE_LIMIT as i128) || e23w > POSE_LIMIT as i128 {
            return Err(RenderError::InvalidProjection);
        }
        let e23: i64 = e23w as i64;
        let proj = Mat4 {
            m00: e00, m01: 0, m02: 0, m03: 0,
            m10: 0, m11: f, m12: 0, m13: 0,
            m20: 0, m21: 0, m22: e22, m23: e23,
            m30: 0, m31: 0, m32: FX_ONE, m33: 0,
        };
        let mut camera = Camera {
            position: Vec3::origin(),
            projection_matrix: proj,
            view_matrix: Mat4::identity(),
            view_projection_matrix: Mat4::identity(),
        };
        camera.update_camera();
        Ok(camera)
    }

    /// The camera's position.
    pub fn get_position(&self) -> (r: Vec3)
        ensures
            r == self.pos_s(),
    {
        self.position
    }

    /// Moves the camera to `position` and refreshes the composite.
    pub fn set_position(&mut self, position: Vec3)
        requires
            old(self).wf(),
            position.within(WORLD_LIMIT as int),
        ensures
            *final(self) == (Camera { position, ..*old(self) }),
            final(self).wf(),
    {
        self.position = position;
        self.update_camera();
    }

    /// The camera-space +z axis carried back to world space through the
    /// transposed rotation part of the view matrix (its inverse, for a rigid
    /// view), negated: after a look-at it points from the target back toward
    /// the camera.
    pub fn get_direction(&self) -> (r: Vec3)
        requires
            self.wf(),
        ensures
            r.x as int == -self.view_s().m20,
            r.y as int == -self.view_s().m21,
            r.z as int == -self.view_s().m22,
    {
        Vec3 { x: -self.view_matrix.m20, y: -self.view_matrix.m21, z: -self.view_matrix.m22 }
    }

    /// The composed view-projection matrix, the single read path from world
    /// space to clip space.
    pub fn get_view_projection_matrix(&self) -> (r: Mat4)
        ensures
            r.s() == self.vp_s(),
    {
        self.view_projection_matrix
    }

    /// Re-aims the camera from its stored position towards `target`, with
    /// the world's +z axis up. A degenerate aim (target at the camera, or
    /// straight along the up axis) leaves the view unchanged.
    pub fn look_at(&mut self, target: Vec3)
        requires
            old(self).wf(),
            target.within(WORLD_LIMIT as int),
        ensures
            *final(self) == (match look_at_s(
                old(self).pos_s().x as int, old(self).pos_s().y as int,
                old(self).pos_s().z as int,
                target.x as int, target.y as int, target.z as int,
            ) {
                Some(v) => old(self).with_view(v),
                None => *old(self),
            }),
            final(self).wf(),
    {
        match look_at_mat(self.position, target) {
            Some(v) => {
                self.view_matrix = v;
                self.update_camera();
            },
            None => {},
        }
    }
}

impl Transformable for Camera {
    open spec fn after_translate(self, delta: Vec3) -> Camera {
        self.with_view(mat_mul_s(
            self.view_s(), translation_s(delta.x as int, delta.y as int, delta.z as int)))
    }

    open spec fn after_rotate(self, x: i64, y: i64, z: i64) -> Camera {
        self.with_view(mat_mul_s(self.view_s(), rotation_xyz_s(x as int, y as int, z as int)))
    }

    /// Scaling a camera is meaningless and is documented as doing nothing.
    open spec fn after_scale(self, factor: i64) -> Camera {
        self
    }

    open spec fn t_wf(self) -> bool {
        self.wf()
    }

    fn translate(&mut self, delta: Vec3) {
        proof {
            lemma_mat_mul_within(self.view_s(),
                translation_s(delta.x as int, delta.y as int, delta.z as int),
                POSE_LIMIT as int, WORLD_LIMIT as int, MAT_LIMIT as int);
        }
        let t = Mat4::translation(delta);
        let cand = match self.view_matrix.mul_c(&t) {
            Some(m) => m,
            None => {
                proof {
                    assert(false);
                }
                Mat4::identity()
            },
        };
        if cand.within_c(POSE_LIMIT) {
            self.view_matrix = cand;
        }
        self.update_camera();
    }

    fn rotate(&mut self, x: i64, y: i64, z: i64) {
        let rx = Mat4::rotation_x(sin_fx(x), cos_fx(x));
        let ry = Mat4::rotation_y(sin_fx(y), cos_fx(y));
        let rz = Mat4::rotation_z(sin_fx(z), cos_fx(z));
        proof {
            lemma_mat_mul_within(rx.s(), ry.s(), FX_ONE as int, FX_ONE as int, 0x4_0000);
        }
        let rxy = match rx.mul_c(&ry) {
            Some(m) => m,
            None => {
                proof {
                    assert(false);
                }
                Mat4::identity()
            },
        };
        proof {
            lemma_mat_mul_within(rxy.s(), rz.s(), 0x4_0000, FX_ONE as int, 0x10_0000);
        }
        let rot = match rxy.mul_c(&rz) {
            Some(m) => m,
            None => {
                proof {
                    assert(false);
                }
                Mat4::identity()
            },
        };
        proof {
            lemma_mat_mul_within(self.view_s(), rot.s(),
                POSE_LIMIT as int, 0x10_0000, MAT_LIMIT as int);
        }
        let cand = match self.view_matrix.mul_c(&rot) {
            Some(m) => m,
            None => {
                proof {
                    assert(false);
                }
                Mat4::identity()
            },
        };
        if cand.within_c(POSE_LIMIT) {
            self.view_matrix = cand;
        }
        self.update_camera();
    }

    fn scale(&mut self, factor: i64) {
        self.update_camera();
    }
}

} // verus!
