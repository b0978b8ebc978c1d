//! A mesh: an owned list of triangles and one model transform, identity at
//! creation, that accumulates translations, rotations and scalings by
//! post-multiplication and is never reset between frames. Drawing submits
//! every triangle in its current world pose; a triangle whose transformed
//! coordinates leave the supported range is skipped, never miscomputed.

use vstd::prelude::*;
use crate::colour::Colour;
use crate::drawable::Drawable;
use crate::fixed::iabs;
use crate::mat4::{
    Mat4, MatS, mat_within, mat_affine, mat_mul_s, ident_s, translation_s, scaling_s,
    lemma_mat_mul_within, lemma_mat_affine_mul, mat_of,
    MAT_LIMIT, POSE_LIMIT, COORD_LIMIT,
};
use crate::raster::{triangle_effect, line_effect};
use crate::renderer::Renderer;
use crate::transformable::Transformable;
use crate::triangle::{Triangle, triangle_transform_s};
use crate::vec3::{Vec3, WORLD_LIMIT};
use crate::vertex::Vertex;
use crate::camera::rotation_xyz_s;
use crate::trig::{sin_fx, cos_fx};

verus! {

/// A drawable collection of triangles with one model transform. The fields
/// are public so the contracts can speak of them; the methods keep `wf`.
pub struct Mesh {
    pub geometry: Vec<Triangle>,
    pub transform: Mat4,
}

/// Whether a polygon becomes a triangle: exactly three vertex indices, each
/// one naming a position within the world's range. Everything else is
/// silently skipped, as loading documents.
pub open spec fn poly_ok(positions: Seq<Vec3>, poly: Seq<usize>) -> bool {
    poly.len() == 3
    && (forall|j: int| 0 <= j < 3 ==> #[trigger] (poly[j] as int) < positions.len())
    && positions[poly[0] as int].within(WORLD_LIMIT as int)
    && positions[poly[1] as int].within(WORLD_LIMIT as int)
    && positions[poly[2] as int].within(WORLD_LIMIT as int)
}

/// The opaque white triangle a polygon's three positions make, with no
/// per-vertex data.
pub open spec fn tri_of_poly(positions: Seq<Vec3>, poly: Seq<usize>) -> Triangle {
    Triangle {
        a: Vertex {
            position: positions[poly[0] as int], normal: None, uv: None, colour: None },
        b: Vertex {
            position: positions[poly[1] as int], normal: None, uv: None, colour: None },
        c: Vertex {
            position: positions[poly[2] as int], normal: None, uv: None, colour: None },
        colour: Colour { r: 255u8, g: 255u8, b: 255u8, a: 255u8 },
    }
}

/// The triangles of the first `k` polygons, in order, skipping every polygon
/// `poly_ok` refuses.
pub open spec fn tris_of_polys(positions: Seq<Vec3>, polys: Seq<Vec<usize>>, k: int) -> Seq<Triangle>
    decreases k,
{
    if k <= 0 {
        Seq::empty()
    } else {
        let rest = tris_of_polys(positions, polys, k - 1);
        if poly_ok(positions, polys[k - 1]@) {
            rest.push(tri_of_poly(positions, polys[k - 1]@))
        } else {
            rest
        }
    }
}

/// Every triangle `tris_of_polys` yields stays within the world's range.
pub proof fn lemma_tris_of_polys_within(positions: Seq<Vec3>, polys: Seq<Vec<usize>>, k: int)
    ensures
        forall|i: int| 0 <= i < tris_of_polys(positions, polys, k).len()
            ==> #[trigger] tris_of_polys(positions, polys, k)[i].within(WORLD_LIMIT as int),
    decreases k,
{
    if k > 0 {
        lemma_tris_of_polys_within(positions, polys, k - 1);
        let rest = tris_of_polys(positions, polys, k - 1);
        let all = tris_of_polys(positions, polys, k);
        if poly_ok(positions, polys[k - 1]@) {
            let t = tri_of_poly(positions, polys[k - 1]@);
            assert(t.within(WORLD_LIMIT as int));
            assert forall|i: int| 0 <= i < all.len()
                implies #[trigger] all[i].within(WORLD_LIMIT as int) by {
                if i < rest.len() {
                    assert(all[i] == rest[i]);
                } else {
                    assert(all[i] == t);
                }
            };
        }
    }
}

/// The buffers after the first `k` triangles of a mesh are drawn filled:
/// each triangle is carried into world space by the model transform and
/// rasterized; one whose transform fails is skipped.
pub open spec fn mesh_fill_upto(
    m: Mesh, colour: Seq<Colour>, depth: Seq<i64>, w: int, h: int, cam: Vec3, vp: MatS, k: int,
) -> (Seq<Colour>, Seq<i64>)
    decreases k,
{
    if k <= 0 {
        (colour, depth)
    } else {
        let prev = mesh_fill_upto(m, colour, depth, w, h, cam, vp, k - 1);
        match triangle_transform_s(m.transform.s(), m.geometry@[k - 1]) {
            Some(t) => triangle_effect(
                prev.0, prev.1, w, h, cam, vp,
                t.a.position, t.b.position, t.c.position, t.colour),
            None => prev,
        }
    }
}

/// The colour buffer after the first `k` triangles of a mesh are drawn as
/// wireframe: the three edges of each world-posed triangle in order.
pub open spec fn mesh_wire_upto(
    m: Mesh, colour: Seq<Colour>, w: int, h: int, vp: MatS, k: int,
) -> Seq<Colour>
    decreases k,
{
    if k <= 0 {
        colour
    } else {
        let prev = mesh_wire_upto(m, colour, w, h, vp, k - 1);
        match triangle_transform_s(m.transform.s(), m.geometry@[k - 1]) {
            Some(t) => {
                let e1 = line_effect(prev, w, h, vp, t.a.position, t.b.position, t.colour);
                let e2 = line_effect(e1, w, h, vp, t.b.position, t.c.position, t.colour);
                line_effect(e2, w, h, vp, t.c.position, t.a.position, t.colour)
            },
            None => prev,
        }
    }
}

/// A candidate model transform is committed only where its entries stay
/// within the pose range; otherwise the old transform is kept unchanged.
pub open spec fn commit_model(old_t: MatS, cand: MatS) -> MatS {
    if mat_within(cand, POSE_LIMIT as int) {
        cand
    } else {
        old_t
    }
}

impl Mesh {
    /// Well-formedness: an affine model transform within the pose range, and
    /// every triangle within the world's range.
    pub open spec fn wf(self) -> bool {
        &&& mat_within(self.transform.s(), POSE_LIMIT as int)
        &&& mat_affine(self.transform.s())
        &&& forall|i: int| 0 <= i < self.geometry@.len()
            ==> #[trigger] self.geometry@[i].within(WORLD_LIMIT as int)
    }

    /// The mesh after a new model transform is adopted; a candidate beyond
    /// the pose range is ignored.
    pub open spec fn with_transform(self, cand: MatS) -> Mesh {
        Mesh { transform: mat_of(commit_model(self.transform.s(), cand)), ..self }
    }

    /// A mesh with no triangles and the identity transform.
    pub fn new() -> (r: Mesh)
        ensures
            r.wf(),
            r.geometry@.len() == 0,
            r.transform.s() == ident_s(),
    {
        Mesh { geometry: Vec::new(), transform: Mat4::identity() }
    }

    /// A mesh built from indexed polygons, as a geometry loader hands them
    /// over: each polygon is a list of indices into `positions`. Only
    /// three-sided polygons whose indices are valid and whose positions are
    /// within the world's range become triangles, flat white; all others are
    /// silently skipped. The transform starts as the identity.
    pub fn from_polygons(positions: &Vec<Vec3>, polys: &Vec<Vec<usize>>) -> (r: Mesh)
        ensures
            r.wf(),
            r.geometry@ == tris_of_polys(positions@, polys@, polys@.len() as int),
            r.transform.s() == ident_s(),
    {
        let mut geometry: Vec<Triangle> = Vec::new();
        let mut k: usize = 0;
        let n: usize = polys.len();
        while k < n
            invariant
                k <= n,
                n == polys@.len(),
                geometry@ == tris_of_polys(positions@, polys@, k as int),
            decreases n - k,
        {
            let poly = &polys[k];
            if poly.len() == 3 {
                let i0: usize = poly[0];
                let i1: usize = poly[1];
                let i2: usize = poly[2];
                if i0 < positions.len() && i1 < positions.len() && i2 < positions.len() {
                    let pa = positions[i0];
                    let pb = positions[i1];
                    let pc = positions[i2];
                    if pa.within_c(WORLD_LIMIT) && pb.within_c(WORLD_LIMIT)
                        && pc.within_c(WORLD_LIMIT) {
                        proof {
                            assert(poly_ok(positions@, polys@[k as int]@));
                        }
                        geometry.push(Triangle {
                            a: Vertex { position: pa, normal: None, uv: None, colour: None },
                            b: Vertex { position: pb, normal: None, uv: None, colour: None },
                            c: Vertex { position: pc, normal: None, uv: None, colour: None },
                            colour: Colour::white(),
                        });
                    } else {
                        proof {
                            assert(!poly_ok(positions@, polys@[k as int]@));
                        }
                    }
                } else {
                    proof {
                        assert(!poly_ok(positions@, polys@[k as int]@));
                    }
                }
            }
            k = k + 1;
        }
        proof {
            lemma_tris_of_polys_within(positions@, polys@, polys@.len() as int);
        }
        Mesh { geometry, transform: Mat4::identity() }
    }
}

impl Drawable for Mesh {
    open spec fn fill_effect(
        self, colour: Seq<Colour>, depth: Seq<i64>, w: int, h: int, cam: Vec3, vp: MatS,
    ) -> (Seq<Colour>, Seq<i64>) {
        mesh_fill_upto(self, colour, depth, w, h, cam, vp, self.geometry@.len() as int)
    }

    open spec fn wire_effect(self, colour: Seq<Colour>, w: int, h: int, vp: MatS) -> Seq<Colour> {
        mesh_wire_upto(self, colour, w, h, vp, self.geometry@.len() as int)
    }

    open spec fn d_wf(self) -> bool {
        self.wf()
    }

    fn draw(&self, renderer: &mut Renderer) {
        let ghost pre_c = renderer.colour_buffer@;
        let ghost pre_d = renderer.depth_buffer@;
        let mut k: usize = 0;
        let n: usize = self.geometry.len();
        while k < n
            invariant
                k <= n,
                n == self.geometry@.len(),
                self.d_wf(),
                renderer.wf(),
                renderer.width == old(renderer).width,
                renderer.height == old(renderer).height,
                renderer.config == old(renderer).config,
                renderer.camera == old(renderer).camera,
                pre_c == old(renderer).colour_buffer@,
                pre_d == old(renderer).depth_buffer@,
                (renderer.colour_buffer@, renderer.depth_buffer@) == mesh_fill_upto(
                    *self, pre_c, pre_d,
                    old(renderer).width as int, old(renderer).height as int,
                    old(renderer).camera.pos_s(), old(renderer).camera.vp_s(), k as int),
            decreases n - k,
        {
            let tri = &self.geometry[k];
            proof {
                assert(self.geometry@[k as int].within(WORLD_LIMIT as int));
            }
            match tri.transform(&self.transform) {
                Some(t) => {
                    renderer.triangle(t.a.position, t.b.position, t.c.position, t.colour);
                },
                None => {},
            }
            k = k + 1;
        }
    }

    fn draw_wireframe(&self, renderer: &mut Renderer) {
        let ghost pre_c = renderer.colour_buffer@;
        let mut k: usize = 0;
        let n: usize = self.geometry.len();
        while k < n
            invariant
                k <= n,
                n == self.geometry@.len(),
                self.d_wf(),
                renderer.wf(),
                renderer.width == old(renderer).width,
                renderer.height == old(renderer).height,
                renderer.config == old(renderer).config,
                renderer.camera == old(renderer).camera,
                renderer.depth_buffer@ == old(renderer).depth_buffer@,
                pre_c == old(renderer).colour_buffer@,
                renderer.colour_buffer@ == mesh_wire_upto(
                    *self, pre_c,
                    old(renderer).width as int, old(renderer).height as int,
                    old(renderer).camera.vp_s(), k as int),
            decreases n - k,
        {
            let tri = &self.geometry[k];
            proof {
                assert(self.geometry@[k as int].within(WORLD_LIMIT as int));
            }
            match tri.transform(&self.transform) {
                Some(t) => {
                    renderer.line(t.a.position, t.b.position, t.colour);
                    renderer.line(t.b.position, t.c.position, t.colour);
                    renderer.line(t.c.position, t.a.position, t.colour);
                },
                None => {},
            }
            k = k + 1;
        }
    }
}

impl Transformable for Mesh {
    open spec fn after_translate(self, delta: Vec3) -> Mesh {
        self.with_transform(mat_mul_s(
            self.transform.s(), translation_s(delta.x as int, delta.y as int, delta.z as int)))
    }

    open spec fn after_rotate(self, x: i64, y: i64, z: i64) -> Mesh {
        self.with_transform(mat_mul_s(
            self.transform.s(), rotation_xyz_s(x as int, y as int, z as int)))
    }

    /// A scaling factor beyond the pose range is ignored outright.
    open spec fn after_scale(self, factor: i64) -> Mesh {
        if iabs(factor as int) <= POSE_LIMIT as int {
            self.with_transform(mat_mul_s(self.transform.s(), scaling_s(factor as int)))
        } else {
            self
        }
    }

    open spec fn t_wf(self) -> bool {
        self.wf()
    }

    fn translate(&mut self, delta: Vec3) {
        proof {
            lemma_mat_mul_within(self.transform.s(),
                translation_s(delta.x as int, delta.y as int, delta.z as int),
                POSE_LIMIT as int, WORLD_LIMIT as int, MAT_LIMIT as int);
        }
        let t = Mat4::translation(delta);
        let cand = match self.transform.mul_c(&t) {
            Some(m) => m,
            None => {
                proof {
                    assert(false);
                }
                Mat4::identity()
            },
        };
        if cand.within_c(POSE_LIMIT) {
            proof {
                lemma_mat_affine_mul(self.transform.s(),
                    translation_s(delta.x as int, delta.y as int, delta.z as int));
            }
            self.transform = cand;
        }
    }

    fn rotate(&mut self, x: i64, y: i64, z: i64) {
        let rx = Mat4::rotation_x(sin_fx(x), cos_fx(x));
        let ry = Mat4::rotation_y(sin_fx(y), cos_fx(y));
        let rz = Mat4::rotation_z(sin_fx(z), cos_fx(z));
        proof {
            lemma_mat_mul_within(rx.s(), ry.s(),
                crate::fixed::FX_ONE as int, crate::fixed::FX_ONE as int, 0x4_0000);
        }
        let rxy = match rx.mul_c(&ry) {
            Some(m) => m,
            None => {
                proof {
                    assert(false);
                }
                Mat4::identity()
            },
        };
        proof {
            lemma_mat_mul_within(rxy.s(), rz.s(), 0x4_0000, crate::fixed::FX_ONE as int, 0x10_0000);
        }
        let rot = match rxy.mul_c(&rz) {
            Some(m) => m,
            None => {
                proof {
                    assert(false);
                }
                Mat4::identity()
            },
        };
        proof {
            lemma_mat_mul_within(self.transform.s(), rot.s(),
                POSE_LIMIT as int, 0x10_0000, MAT_LIMIT as int);
        }
        let cand = match self.transform.mul_c(&rot) {
            Some(m) => m,
            None => {
                proof {
                    assert(false);
                }
                Mat4::identity()
            },
        };
        if cand.within_c(POSE_LIMIT) {
            proof {
                lemma_mat_affine_mul(rx.s(), ry.s());
                lemma_mat_affine_mul(mat_mul_s(rx.s(), ry.s()), rz.s());
                lemma_mat_affine_mul(self.transform.s(), rot.s());
            }
            self.transform = cand;
        }
    }

    fn scale(&mut self, factor: i64) {
        if factor < -POSE_LIMIT || factor > POSE_LIMIT {
            return;
        }
        proof {
            lemma_mat_mul_within(self.transform.s(), scaling_s(factor as int),
                POSE_LIMIT as int, POSE_LIMIT as int, MAT_LIMIT as int);
        }
        let sm = Mat4::scaling(factor);
        let cand = match self.transform.mul_c(&sm) {
            Some(m) => m,
            None => {
                proof {
                    assert(false);
                }
                Mat4::identity()
            },
        };
        if cand.within_c(POSE_LIMIT) {
            proof {
                lemma_mat_affine_mul(self.transform.s(), scaling_s(factor as int));
            }
            self.transform = cand;
        }
    }
}

} // verus!
