//! The renderer: a colour buffer and a depth buffer, both row-major, an
//! owned camera, and the rasterization paths that fill them.

use vstd::prelude::*;
use crate::camera::{Camera, perspective_s};
use crate::colour::Colour;
use crate::drawable::Drawable;
use crate::error::RenderError;
use crate::fixed::{FX_ONE, iabs, div_t, idiv_t, lemma_abs_mul_bound};
use crate::mat4::{Mat4, MatS, mat_within, MAT_LIMIT, COORD_LIMIT};
use crate::raster::{to_screen_s, dims_ok, DEPTH_SENTINEL};
use crate::renderer_config::RendererConfig;
use crate::vec3::Vec3;

verus! {

/// The default near plane, about 0.1 in Q16.16.
pub const Z_NEAR_DEFAULT: i64 = 6554;

/// The default far plane, 10000.0 in Q16.16.
pub const Z_FAR_DEFAULT: i64 = 655360000;

/// A `Vec<Colour>` filled with one colour.
fn filled_colour(n: usize, c: Colour) -> (r: Vec<Colour>)
    ensures
        r@.len() == n,
        forall|i: int| 0 <= i < n ==> r@[i] == c,
{
    let mut v: Vec<Colour> = Vec::new();
    let mut k: usize = 0;
    while k < n
        invariant
            k <= n,
            v@.len() == k,
            forall|i: int| 0 <= i < k ==> v@[i] == c,
        decreases n - k,
    {
        v.push(c);
        k = k + 1;
    }
    v
}

/// A `Vec<i64>` filled with one value.
fn filled_depth(n: usize, d: i64) -> (r: Vec<i64>)
    ensures
        r@.len() == n,
        forall|i: int| 0 <= i < n ==> r@[i] == d,
{
    let mut v: Vec<i64> = Vec::new();
    let mut k: usize = 0;
    while k < n
        invariant
            k <= n,
            v@.len() == k,
            forall|i: int| 0 <= i < k ==> v@[i] == d,
        decreases n - k,
    {
        v.push(d);
        k = k + 1;
    }
    v
}

/// The renderer. It owns its buffers and camera exclusively; the fields are
/// public so the contracts can speak of them, and every mutation goes
/// through the methods, which keep `wf`.
pub struct Renderer {
    pub width: u32,
    pub height: u32,
    pub config: RendererConfig,
    pub colour_buffer: Vec<Colour>,
    pub depth_buffer: Vec<i64>,
    pub camera: Camera,
}

/// Whether construction succeeds: the dimensions are supported and the
/// configured field of view yields a valid perspective over the frame's
/// aspect ratio and the default planes.
pub open spec fn renderer_new_ok(w: int, h: int, config: RendererConfig) -> bool {
    dims_ok(w, h) && perspective_s(
        div_t(w * (FX_ONE as int), h), config.field_of_view as int,
        Z_NEAR_DEFAULT as int, Z_FAR_DEFAULT as int) is Some
}

impl Renderer {
    /// Well-formedness: supported dimensions, both buffers exactly one cell
    /// per pixel, and a well-formed camera.
    pub open spec fn wf(self) -> bool {
        &&& dims_ok(self.width as int, self.height as int)
        &&& self.colour_buffer@.len() == self.width as int * self.height as int
        &&& self.depth_buffer@.len() == self.width as int * self.height as int
        &&& self.camera.wf()
    }

    /// A renderer over a `width x height` frame, its camera at the origin
    /// with identity view, both buffers in the cleared state. Fails exactly
    /// where the dimensions are unsupported or the configured field of view
    /// is degenerate.
    pub fn new(width: u32, height: u32, config: RendererConfig)
        -> (r: Result<Renderer, RenderError>)
        ensures
            r is Ok <==> renderer_new_ok(width as int, height as int, config),
            r is Ok ==> {
                let rr = r->Ok_0;
                &&& rr.wf()
                &&& rr.width == width
                &&& rr.height == height
                &&& rr.config == config
                &&& Some(rr.camera.proj_s()) == perspective_s(
                    div_t(width as int * (FX_ONE as int), height as int),
                    config.field_of_view as int,
                    Z_NEAR_DEFAULT as int, Z_FAR_DEFAULT as int)
                &&& rr.camera.view_s() == crate::mat4::ident_s()
                &&& rr.camera.pos_s() == (Vec3 { x: 0i64, y: 0i64, z: 0i64 })
                &&& forall|i: int| 0 <= i < rr.colour_buffer@.len()
                    ==> rr.colour_buffer@[i] == config.clear_colour
                &&& forall|i: int| 0 <= i < rr.depth_buffer@.len()
                    ==> rr.depth_buffer@[i] == DEPTH_SENTINEL
            },
    {
        if width == 0 || height == 0 || width > 0x8000 || height > 0x8000 {
            return Err(RenderError::InvalidDimensions);
        }
        let aspect: i64 = (((width as u64) * 65536u64) / (height as u64)) as i64;
        let camera = match Camera::new(
            aspect, config.field_of_view, Z_NEAR_DEFAULT, Z_FAR_DEFAULT) {
            Ok(c) => c,
            Err(_) => { return Err(RenderError::InvalidProjection); },
        };
        proof {
            assert((width as int) * (height as int) <= 0x4000_0000) by (nonlinear_arith)
                requires width as int <= 0x8000 && height as int <= 0x8000
                    && 0 <= width as int && 0 <= height as int;
        }
        let n: usize = (width as usize) * (height as usize);
        Ok(Renderer {
            width,
            height,
            config,
            colour_buffer: filled_colour(n, config.clear_colour),
            depth_buffer: filled_depth(n, DEPTH_SENTINEL),
            camera,
        })
    }

    /// The frame's width in pixels.
    pub fn get_width(&self) -> (r: u32)
        ensures
            r == self.width,
    {
        self.width
    }

    /// The frame's height in pixels.
    pub fn get_height(&self) -> (r: u32)
        ensures
            r == self.height,
    {
        self.height
    }

    /// The camera, read-only.
    pub fn get_camera(&self) -> (r: &Camera)
        ensures
            r == self.camera,
    {
        &self.camera
    }

    /// The camera, for mutation; the rest of the renderer is untouched for
    /// as long as the borrow lives.
    pub fn get_camera_mut(&mut self) -> (r: &mut Camera)
        ensures
            *r == old(self).camera,
            *final(self) == (Renderer { camera: *final(r), ..*old(self) }),
    {
        &mut self.camera
    }

    /// The colour buffer flattened to bytes: four bytes per pixel, row-major,
    /// in r, g, b, a order.
    pub fn get_colour_buffer_raw(&self) -> (r: Vec<u8>)
        ensures
            r@.len() == 4 * self.colour_buffer@.len(),
            forall|i: int| 0 <= i < self.colour_buffer@.len() ==> {
                &&& r@[4 * i] == self.colour_buffer@[i].r
                &&& r@[4 * i + 1] == self.colour_buffer@[i].g
                &&& r@[4 * i + 2] == self.colour_buffer@[i].b
                &&& r@[4 * i + 3] == self.colour_buffer@[i].a
            },
    {
        let mut out: Vec<u8> = Vec::new();
        let mut k: usize = 0;
        let n: usize = self.colour_buffer.len();
        while k < n
            invariant
                k <= n,
                n == self.colour_buffer@.len(),
                out@.len() == 4 * k,
                forall|i: int| 0 <= i < k ==> {
                    &&& out@[4 * i] == self.colour_buffer@[i].r
                    &&& out@[4 * i + 1] == self.colour_buffer@[i].g
                    &&& out@[4 * i + 2] == self.colour_buffer@[i].b
                    &&& out@[4 * i + 3] == self.colour_buffer@[i].a
                },
            decreases n - k,
        {
            let c = self.colour_buffer[k];
            out.push(c.r);
            out.push(c.g);
            out.push(c.b);
            out.push(c.a);
            k = k + 1;
        }
        out
    }

    /// The depth buffer, read-only.
    pub fn get_depth_buffer_raw(&self) -> (r: &Vec<i64>)
        ensures
            r@ == self.depth_buffer@,
    {
        &self.depth_buffer
    }

    /// Resets the colour buffer to the configured clear colour and the depth
    /// buffer to the far sentinel.
    pub fn clear(&mut self)
        requires
            old(self).wf(),
        ensures
            final(self).wf(),
            final(self).colour_buffer@.len() == old(self).colour_buffer@.len(),
            final(self).depth_buffer@.len() == old(self).depth_buffer@.len(),
            forall|i: int| 0 <= i < final(self).colour_buffer@.len()
                ==> final(self).colour_buffer@[i] == old(self).config.clear_colour,
            forall|i: int| 0 <= i < final(self).depth_buffer@.len()
                ==> final(self).depth_buffer@[i] == DEPTH_SENTINEL,
            final(self).width == old(self).width,
            final(self).height == old(self).height,
            final(self).config == old(self).config,
            final(self).camera == old(self).camera,
    {
        let n: usize = self.colour_buffer.len();
        self.colour_buffer = filled_colour(n, self.config.clear_colour);
        self.depth_buffer = filled_depth(n, DEPTH_SENTINEL);
    }

    /// Draws a drawable, filled or as wireframe according to the renderer's
    /// configuration - the only switch between the two paths.
    pub fn draw<T: Drawable>(&mut self, drawable: &T)
        requires
            old(self).wf(),
            drawable.d_wf(),
        ensures
            final(self).wf(),
            ({
                let eff = drawable.fill_effect(
                    old(self).colour_buffer@, old(self).depth_buffer@,
                    old(self).width as int, old(self).height as int,
                    old(self).camera.pos_s(), old(self).camera.vp_s());
                if old(self).config.wireframe {
                    final(self).colour_buffer@ == drawable.wire_effect(
                        old(self).colour_buffer@,
                        old(self).width as int, old(self).height as int,
                        old(self).camera.vp_s())
                    && final(self).depth_buffer@ == old(self).depth_buffer@
                } else {
                    final(self).colour_buffer@ == eff.0 && final(self).depth_buffer@ == eff.1
                }
            }),
            final(self).width == old(self).width,
            final(self).height == old(self).height,
            final(self).config == old(self).config,
            final(self).camera == old(self).camera,
    {
        if self.config.wireframe {
            drawable.draw_wireframe(self);
        } else {
            drawable.draw(self);
        }
    }
}

impl Renderer {
    /// Writes one pixel of a screen triangle: where `(x, y)` is strictly
    /// inside the triangle and its interpolated depth beats the buffer's,
    /// both buffers are updated at that pixel; otherwise nothing changes.
    fn pixel_step(&mut self, q0: Vec3, q1: Vec3, q2: Vec3, x: i64, y: i64, shaded: Colour)
        requires
            old(self).wf(),
            q0.within(COORD_LIMIT as int),
            q1.within(COORD_LIMIT as int),
            q2.within(COORD_LIMIT as int),
            0 <= x < old(self).width,
            0 <= y < old(self).height,
        ensures
            final(self).wf(),
            final(self).width == old(self).width,
            final(self).height == old(self).height,
            final(self).config == old(self).config,
            final(self).camera == old(self).camera,
            ({
                let w = old(self).width as int;
                let i0 = (y as int) * w + (x as int);
                let pxf = (x as int) * (FX_ONE as int);
                let pyf = (y as int) * (FX_ONE as int);
                if crate::raster::covered(q0, q1, q2, pxf, pyf)
                    && crate::raster::tri_depth(q0, q1, q2, pxf, pyf)
                        > old(self).depth_buffer@[i0] {
                    final(self).colour_buffer@ == old(self).colour_buffer@.update(i0, shaded)
                    && final(self).depth_buffer@ == old(self).depth_buffer@.update(
                        i0, crate::raster::tri_depth(q0, q1, q2, pxf, pyf) as i64)
                } else {
                    final(self).colour_buffer@ == old(self).colour_buffer@
                    && final(self).depth_buffer@ == old(self).depth_buffer@
                }
            }),
    {
        let ghost wg: int = self.width as int;
        let ghost hg: int = self.height as int;
        let ghost i0: int = (y as int) * wg + (x as int);
        proof {
            assert((y as int) * wg <= (hg - 1) * wg) by (nonlinear_arith)
                requires y as int <= hg - 1, wg >= 1;
            assert((hg - 1) * wg + wg == hg * wg) by (nonlinear_arith);
            assert((y as int) * wg >= 0) by (nonlinear_arith)
                requires y as int >= 0, wg >= 0;
            assert(wg * hg <= 0x4000_0000) by (nonlinear_arith)
                requires 1 <= wg <= 0x8000, 1 <= hg <= 0x8000;
        }
        let pxf: i64 = x * FX_ONE;
        let pyf: i64 = y * FX_ONE;
        let a: i128 = edge_c(q0.x, q0.y, q1.x, q1.y, q2.x, q2.y);
        let l0: i128 = edge_c(q1.x, q1.y, q2.x, q2.y, pxf, pyf);
        let l1: i128 = edge_c(q2.x, q2.y, q0.x, q0.y, pxf, pyf);
        let l2: i128 = edge_c(q0.x, q0.y, q1.x, q1.y, pxf, pyf);
        let inside: bool = if a > 0 {
            0 < l0 && l0 < a && 0 < l1 && l1 < a && 0 < l2 && l2 < a
        } else if a < 0 {
            a < l0 && l0 < 0 && a < l1 && l1 < 0 && a < l2 && l2 < 0
        } else {
            false
        };
        proof {
            assert(inside == crate::raster::covered(q0, q1, q2, pxf as int, pyf as int));
        }
        if !inside {
            return;
        }
        proof {
            lemma_abs_mul_bound(l0 as int, q0.z as int, iabs(a as int), COORD_LIMIT as int);
            lemma_abs_mul_bound(l1 as int, q1.z as int, iabs(a as int), COORD_LIMIT as int);
            lemma_abs_mul_bound(l2 as int, q2.z as int, iabs(a as int), COORD_LIMIT as int);
            crate::fixed::lemma_div_t_bound(
                (l0 as int) * (q0.z as int) + (l1 as int) * (q1.z as int)
                    + (l2 as int) * (q2.z as int),
                a as int, 0x30_0000_0000);
        }
        let num: i128 = l0 * (q0.z as i128) + l1 * (q1.z as i128) + l2 * (q2.z as i128);
        let dep: i128 = idiv_t(num, a);
        let idx: usize = (y as usize) * (self.width as usize) + (x as usize);
        let depi: i64 = dep as i64;
        if depi > self.depth_buffer[idx] {
            self.colour_buffer.set(idx, shaded);
            self.depth_buffer.set(idx, depi);
        }
    }

    /// Rasterizes one world-space triangle, flat-coloured with `colour`:
    /// backface-culled against the camera, projected to the screen, bounded,
    /// lit, and filled pixel by pixel under the strict depth test - the
    /// buffers become exactly what `triangle_effect` describes.
    #[verifier::loop_isolation(false)]
    #[verifier::rlimit(100)]
    pub fn triangle(&mut self, p0: Vec3, p1: Vec3, p2: Vec3, colour: Colour)
        requires
            old(self).wf(),
        ensures
            final(self).wf(),
            ({
                let eff = crate::raster::triangle_effect(
                    old(self).colour_buffer@, old(self).depth_buffer@,
                    old(self).width as int, old(self).height as int,
                    old(self).camera.pos_s(), old(self).camera.vp_s(), p0, p1, p2, colour);
                final(self).colour_buffer@ == eff.0 && final(self).depth_buffer@ == eff.1
            }),
            final(self).width == old(self).width,
            final(self).height == old(self).height,
            final(self).config == old(self).config,
            final(self).camera == old(self).camera,
    {
        let ghost pre_c = self.colour_buffer@;
        let ghost pre_d = self.depth_buffer@;
        let ghost wg: int = self.width as int;
        let ghost hg: int = self.height as int;
        let wl: i64 = crate::vec3::WORLD_LIMIT;
        if !(p0.within_c(wl) && p1.within_c(wl) && p2.within_c(wl)) {
            return;
        }
        let d2x: i128 = (p2.x as i128) - (p0.x as i128);
        let d2y: i128 = (p2.y as i128) - (p0.y as i128);
        let d2z: i128 = (p2.z as i128) - (p0.z as i128);
        let d1x: i128 = (p1.x as i128) - (p0.x as i128);
        let d1y: i128 = (p1.y as i128) - (p0.y as i128);
        let d1z: i128 = (p1.z as i128) - (p0.z as i128);
        proof {
            lemma_abs_mul_bound(d2y as int, d1z as int, 0x2000_0000, 0x2000_0000);
            lemma_abs_mul_bound(d2z as int, d1y as int, 0x2000_0000, 0x2000_0000);
            lemma_abs_mul_bound(d2z as int, d1x as int, 0x2000_0000, 0x2000_0000);
            lemma_abs_mul_bound(d2x as int, d1z as int, 0x2000_0000, 0x2000_0000);
            lemma_abs_mul_bound(d2x as int, d1y as int, 0x2000_0000, 0x2000_0000);
            lemma_abs_mul_bound(d2y as int, d1x as int, 0x2000_0000, 0x2000_0000);
        }
        let nx: i128 = d2y * d1z - d2z * d1y;
        let ny: i128 = d2z * d1x - d2x * d1z;
        let nz: i128 = d2x * d1y - d2y * d1x;
        let cam = self.camera.get_position();
        proof {
            lemma_abs_mul_bound((p0.x as int) - (cam.x as int), nx as int, 0x2000_0000, 0x1000_0000_0000_0000);
            lemma_abs_mul_bound((p0.y as int) - (cam.y as int), ny as int, 0x2000_0000, 0x1000_0000_0000_0000);
            lemma_abs_mul_bound((p0.z as int) - (cam.z as int), nz as int, 0x2000_0000, 0x1000_0000_0000_0000);
            lemma_abs_mul_bound((p1.x as int) - (cam.x as int), nx as int, 0x2000_0000, 0x1000_0000_0000_0000);
            lemma_abs_mul_bound((p1.y as int) - (cam.y as int), ny as int, 0x2000_0000, 0x1000_0000_0000_0000);
            lemma_abs_mul_bound((p1.z as int) - (cam.z as int), nz as int, 0x2000_0000, 0x1000_0000_0000_0000);
            lemma_abs_mul_bound((p2.x as int) - (cam.x as int), nx as int, 0x2000_0000, 0x1000_0000_0000_0000);
            lemma_abs_mul_bound((p2.y as int) - (cam.y as int), ny as int, 0x2000_0000, 0x1000_0000_0000_0000);
            lemma_abs_mul_bound((p2.z as int) - (cam.z as int), nz as int, 0x2000_0000, 0x1000_0000_0000_0000);
        }
        let v0: i128 = ((p0.x as i128) - (cam.x as i128)) * nx
            + ((p0.y as i128) - (cam.y as i128)) * ny + ((p0.z as i128) - (cam.z as i128)) * nz;
        let v1: i128 = ((p1.x as i128) - (cam.x as i128)) * nx
            + ((p1.y as i128) - (cam.y as i128)) * ny + ((p1.z as i128) - (cam.z as i128)) * nz;
        let v2: i128 = ((p2.x as i128) - (cam.x as i128)) * nx
            + ((p2.y as i128) - (cam.y as i128)) * ny + ((p2.z as i128) - (cam.z as i128)) * nz;
        if v0 < 0 && v1 < 0 && v2 < 0 {
            return;
        }
        let vp = self.camera.get_view_projection_matrix();
        let q0 = match to_screen(&vp, self.width, self.height, p0) {
            Some(q) => q,
            None => { return; },
        };
        let q1 = match to_screen(&vp, self.width, self.height, p1) {
            Some(q) => q,
            None => { return; },
        };
        let q2 = match to_screen(&vp, self.width, self.height, p2) {
            Some(q) => q,
            None => { return; },
        };
        let wm1: i64 = (self.width - 1) as i64;
        let hm1: i64 = (self.height - 1) as i64;
        let lox: i64 = imax_c(0, imin_c(wm1,
            imin_c(crate::fixed::fx_floor(q0.x),
                imin_c(crate::fixed::fx_floor(q1.x), crate::fixed::fx_floor(q2.x)))));
        let hix: i64 = imin_c(wm1, imax_c(0,
            imax_c(crate::fixed::fx_ceil(q0.x),
                imax_c(crate::fixed::fx_ceil(q1.x), crate::fixed::fx_ceil(q2.x)))));
        let loy: i64 = imax_c(0, imin_c(hm1,
            imin_c(crate::fixed::fx_floor(q0.y),
                imin_c(crate::fixed::fx_floor(q1.y), crate::fixed::fx_floor(q2.y)))));
        let hiy: i64 = imin_c(hm1, imax_c(0,
            imax_c(crate::fixed::fx_ceil(q0.y),
                imax_c(crate::fixed::fx_ceil(q1.y), crate::fixed::fx_ceil(q2.y)))));
        proof {
            assert(lox as int == crate::raster::bb_lo_x(q0, q1, q2, wg));
            assert(hix as int == crate::raster::bb_hi_x(q0, q1, q2, wg));
            assert(loy as int == crate::raster::bb_lo_y(q0, q1, q2, hg));
            assert(hiy as int == crate::raster::bb_hi_y(q0, q1, q2, hg));
            assert(0 <= lox && hix <= wm1 && 0 <= loy && hiy <= hm1);
        }
        if hix == lox || hiy == loy {
            return;
        }
        if hix < lox || hiy < loy {
            proof {
                assert(pre_c =~= crate::raster::raster_colour(
                    pre_c, pre_d, q0, q1, q2, wg, hg, crate::raster::shade(colour, p0, p1, p2)));
                assert(pre_d =~= crate::raster::raster_depth(pre_d, q0, q1, q2, wg, hg));
            }
            return;
        }
        let shaded = shade_c(colour, p0, p1, p2);
        proof {
            assert(shaded == crate::raster::shade(colour, p0, p1, p2));
        }
        self.raster_box(q0, q1, q2, shaded);
    }

    /// Sweeps the clamped bounding box of a screen triangle row-major,
    /// writing every pixel the per-pixel test accepts: the buffers become
    /// exactly `raster_colour` and `raster_depth`.
    #[verifier::loop_isolation(false)]
    #[verifier::rlimit(100)]
    fn raster_box(&mut self, q0: Vec3, q1: Vec3, q2: Vec3, shaded: Colour)
        requires
            old(self).wf(),
            q0.within(COORD_LIMIT as int),
            q1.within(COORD_LIMIT as int),
            q2.within(COORD_LIMIT as int),
        ensures
            final(self).wf(),
            final(self).colour_buffer@ == crate::raster::raster_colour(
                old(self).colour_buffer@, old(self).depth_buffer@, q0, q1, q2,
                old(self).width as int, old(self).height as int, shaded),
            final(self).depth_buffer@ == crate::raster::raster_depth(
                old(self).depth_buffer@, q0, q1, q2,
                old(self).width as int, old(self).height as int),
            final(self).width == old(self).width,
            final(self).height == old(self).height,
            final(self).config == old(self).config,
            final(self).camera == old(self).camera,
    {
        let ghost pre_c = self.colour_buffer@;
        let ghost pre_d = self.depth_buffer@;
        let ghost wg: int = self.width as int;
        let ghost hg: int = self.height as int;
        let wm1: i64 = (self.width - 1) as i64;
        let hm1: i64 = (self.height - 1) as i64;
        let lox: i64 = imax_c(0, imin_c(wm1,
            imin_c(crate::fixed::fx_floor(q0.x),
                imin_c(crate::fixed::fx_floor(q1.x), crate::fixed::fx_floor(q2.x)))));
        let hix: i64 = imin_c(wm1, imax_c(0,
            imax_c(crate::fixed::fx_ceil(q0.x),
                imax_c(crate::fixed::fx_ceil(q1.x), crate::fixed::fx_ceil(q2.x)))));
        let loy: i64 = imax_c(0, imin_c(hm1,
            imin_c(crate::fixed::fx_floor(q0.y),
                imin_c(crate::fixed::fx_floor(q1.y), crate::fixed::fx_floor(q2.y)))));
        let hiy: i64 = imin_c(hm1, imax_c(0,
            imax_c(crate::fixed::fx_ceil(q0.y),
                imax_c(crate::fixed::fx_ceil(q1.y), crate::fixed::fx_ceil(q2.y)))));
        proof {
            assert(lox as int == crate::raster::bb_lo_x(q0, q1, q2, wg));
            assert(hix as int == crate::raster::bb_hi_x(q0, q1, q2, wg));
            assert(loy as int == crate::raster::bb_lo_y(q0, q1, q2, hg));
            assert(hiy as int == crate::raster::bb_hi_y(q0, q1, q2, hg));
            assert(0 <= lox && hix <= wm1 && 0 <= loy && hiy <= hm1);
        }
        if hix < lox || hiy < loy {
            proof {
                assert(pre_c =~= crate::raster::raster_colour(
                    pre_c, pre_d, q0, q1, q2, wg, hg, shaded));
                assert(pre_d =~= crate::raster::raster_depth(pre_d, q0, q1, q2, wg, hg));
            }
            return;
        }
        let mut y: i64 = loy;
        while y <= hiy
            invariant
                loy <= y <= hiy + 1,
                self.width == old(self).width,
                self.height == old(self).height,
                self.config == old(self).config,
                self.camera == old(self).camera,
                self.colour_buffer@.len() == pre_c.len(),
                self.depth_buffer@.len() == pre_d.len(),
                forall|i: int| 0 <= i < pre_d.len() ==> #[trigger] self.depth_buffer@[i]
                    == (if crate::raster::done_before(i, wg, lox as int, hix as int,
                            loy as int, hiy as int, lox as int, y as int)
                        && crate::raster::hit_at(q0, q1, q2, wg, hg, pre_d, i % wg, i / wg) {
                        crate::raster::tri_depth(q0, q1, q2,
                            (i % wg) * (FX_ONE as int), (i / wg) * (FX_ONE as int)) as i64
                    } else {
                        pre_d[i]
                    }),
                forall|i: int| 0 <= i < pre_c.len() ==> #[trigger] self.colour_buffer@[i]
                    == (if crate::raster::done_before(i, wg, lox as int, hix as int,
                            loy as int, hiy as int, lox as int, y as int)
                        && crate::raster::hit_at(q0, q1, q2, wg, hg, pre_d, i % wg, i / wg) {
                        shaded
                    } else {
                        pre_c[i]
                    }),
            decreases hiy + 1 - y,
        {
            let mut x: i64 = lox;
            while x <= hix
                invariant
                    lox <= x <= hix + 1,
                    loy <= y <= hiy,
                    self.width == old(self).width,
                    self.height == old(self).height,
                    self.config == old(self).config,
                    self.camera == old(self).camera,
                    self.colour_buffer@.len() == pre_c.len(),
                    self.depth_buffer@.len() == pre_d.len(),
                    forall|i: int| 0 <= i < pre_d.len() ==> #[trigger] self.depth_buffer@[i]
                        == (if crate::raster::done_before(i, wg, lox as int, hix as int,
                                loy as int, hiy as int, x as int, y as int)
                            && crate::raster::hit_at(q0, q1, q2, wg, hg, pre_d, i % wg, i / wg) {
                            crate::raster::tri_depth(q0, q1, q2,
                                (i % wg) * (FX_ONE as int), (i / wg) * (FX_ONE as int)) as i64
                        } else {
                            pre_d[i]
                        }),
                    forall|i: int| 0 <= i < pre_c.len() ==> #[trigger] self.colour_buffer@[i]
                        == (if crate::raster::done_before(i, wg, lox as int, hix as int,
                                loy as int, hiy as int, x as int, y as int)
                            && crate::raster::hit_at(q0, q1, q2, wg, hg, pre_d, i % wg, i / wg) {
                            shaded
                        } else {
                            pre_c[i]
                        }),
                decreases hix + 1 - x,
            {
                let ghost i0: int = (y as int) * wg + (x as int);
                proof {
                    assert((y as int) * wg >= 0) by (nonlinear_arith)
                        requires y as int >= 0, wg >= 0;
                    assert((y as int) * wg <= (hg - 1) * wg) by (nonlinear_arith)
                        requires y as int <= hg - 1, wg >= 1;
                    assert((hg - 1) * wg + wg == hg * wg) by (nonlinear_arith);
                    assert(0 <= i0 < wg * hg);
                    vstd::arithmetic::div_mod::lemma_fundamental_div_mod_converse(
                        i0, wg, y as int, x as int);
                    assert(!crate::raster::done_before(i0, wg, lox as int, hix as int,
                        loy as int, hiy as int, x as int, y as int));
                }
                let ghost buf_c = self.colour_buffer@;
                let ghost buf_d = self.depth_buffer@;
                self.pixel_step(q0, q1, q2, x, y, shaded);
                proof {
                    assert(buf_d[i0] == pre_d[i0]);
                    assert(crate::raster::hit_at(q0, q1, q2, wg, hg, pre_d, x as int, y as int)
                        == (crate::raster::covered(q0, q1, q2,
                                (x as int) * (FX_ONE as int), (y as int) * (FX_ONE as int))
                            && crate::raster::tri_depth(q0, q1, q2,
                                (x as int) * (FX_ONE as int), (y as int) * (FX_ONE as int))
                                > pre_d[i0]));
                    assert(crate::raster::done_before(i0, wg, lox as int, hix as int,
                        loy as int, hiy as int, x as int + 1, y as int));
                    assert forall|i: int| 0 <= i < pre_d.len() implies
                        #[trigger] self.depth_buffer@[i]
                        == (if crate::raster::done_before(i, wg, lox as int, hix as int,
                                loy as int, hiy as int, x as int + 1, y as int)
                            && crate::raster::hit_at(q0, q1, q2, wg, hg, pre_d, i % wg, i / wg) {
                            crate::raster::tri_depth(q0, q1, q2,
                                (i % wg) * (FX_ONE as int), (i / wg) * (FX_ONE as int)) as i64
                        } else {
                            pre_d[i]
                        }) by {
                        if i != i0 {
                            crate::raster::lemma_done_step_col(
                                i, wg, lox as int, hix as int, loy as int, hiy as int,
                                x as int, y as int);
                        }
                    };
                    assert forall|i: int| 0 <= i < pre_c.len() implies
                        #[trigger] self.colour_buffer@[i]
                        == (if crate::raster::done_before(i, wg, lox as int, hix as int,
                                loy as int, hiy as int, x as int + 1, y as int)
                            && crate::raster::hit_at(q0, q1, q2, wg, hg, pre_d, i % wg, i / wg) {
                            shaded
                        } else {
                            pre_c[i]
                        }) by {
                        if i != i0 {
                            crate::raster::lemma_done_step_col(
                                i, wg, lox as int, hix as int, loy as int, hiy as int,
                                x as int, y as int);
                        }
                    };
                }
                x = x + 1;
            }
            proof {
                assert forall|i: int| 0 <= i < pre_d.len() implies
                    (#[trigger] crate::raster::done_before(i, wg, lox as int, hix as int,
                        loy as int, hiy as int, lox as int, y as int + 1))
                    == crate::raster::done_before(i, wg, lox as int, hix as int,
                        loy as int, hiy as int, hix as int + 1, y as int) by {
                    crate::raster::lemma_done_step_row(
                        i, wg, lox as int, hix as int, loy as int, hiy as int, y as int);
                };
            }
            y = y + 1;
        }
        proof {
            assert(self.colour_buffer@ =~= crate::raster::raster_colour(
                pre_c, pre_d, q0, q1, q2, wg, hg, shaded));
            assert(self.depth_buffer@ =~= crate::raster::raster_depth(
                pre_d, q0, q1, q2, wg, hg));
        }
    }
}

/// The magnitude of a machine integer.
fn iabs_c(a: i64) -> (r: i64)
    requires
        a != i64::MIN,
    ensures
        r == iabs(a as int),
{
    if a < 0 { -a } else { a }
}

/// A Q16.16 screen coordinate truncated to its pixel.
fn trunc_c(v: i64) -> (r: i64)
    requires
        iabs(v as int) <= COORD_LIMIT as int,
    ensures
        r == crate::raster::trunc_px(v as int),
        iabs(r as int) <= COORD_LIMIT as int,
{
    proof {
        crate::fixed::lemma_div_t_abs(v as int, FX_ONE as int);
    }
    idiv_t(v as i128, FX_ONE as i128) as i64
}

impl Renderer {
    /// Draws a world-space line segment: both endpoints are projected and
    /// truncated to pixels, and the segment is walked along its axis of
    /// greatest extent, one pixel per step. Off-screen pixels are skipped,
    /// not clamped, and no depth is tested or written - the colour buffer
    /// becomes exactly what `line_effect` describes.
    #[verifier::loop_isolation(false)]
    #[verifier::rlimit(100)]
    pub fn line(&mut self, p0: Vec3, p1: Vec3, colour: Colour)
        requires
            old(self).wf(),
        ensures
            final(self).wf(),
            final(self).colour_buffer@ == crate::raster::line_effect(
                old(self).colour_buffer@, old(self).width as int, old(self).height as int,
                old(self).camera.vp_s(), p0, p1, colour),
            final(self).depth_buffer@ == old(self).depth_buffer@,
            final(self).width == old(self).width,
            final(self).height == old(self).height,
            final(self).config == old(self).config,
            final(self).camera == old(self).camera,
    {
        let ghost pre_c = self.colour_buffer@;
        let ghost wg: int = self.width as int;
        let ghost hg: int = self.height as int;
        let wl: i64 = crate::vec3::WORLD_LIMIT;
        if !(p0.within_c(wl) && p1.within_c(wl)) {
            return;
        }
        let vp = self.camera.get_view_projection_matrix();
        let qa = match to_screen(&vp, self.width, self.height, p0) {
            Some(q) => q,
            None => { return; },
        };
        let qb = match to_screen(&vp, self.width, self.height, p1) {
            Some(q) => q,
            None => { return; },
        };
        let ax: i64 = trunc_c(qa.x);
        let ay: i64 = trunc_c(qa.y);
        let bx: i64 = trunc_c(qb.x);
        let by: i64 = trunc_c(qb.y);
        let steep: bool = iabs_c(ax - bx) < iabs_c(ay - by);
        let xa: i64 = if steep { ay } else { ax };
        let ya: i64 = if steep { ax } else { ay };
        let xb: i64 = if steep { by } else { bx };
        let yb: i64 = if steep { bx } else { by };
        let x0: i64 = if xa > xb { xb } else { xa };
        let y0: i64 = if xa > xb { yb } else { ya };
        let x1: i64 = if xa > xb { xa } else { xb };
        let y1: i64 = if xa > xb { ya } else { yb };
        proof {
            assert(x1 - x0 == iabs(xa as int - xb as int));
            assert(iabs(y1 as int - y0 as int) == iabs(ya as int - yb as int));
            assert(iabs(y1 as int - y0 as int) <= x1 - x0);
        }
        self.walk_line(steep, x0, y0, x1, y1, colour);
        proof {
            assert(self.colour_buffer@ =~= crate::raster::line_effect(
                pre_c, wg, hg, old(self).camera.vp_s(), p0, p1, colour));
        }
    }

    /// Walks a normalized pixel segment (major axis along x, `x0 <= x1`),
    /// writing every on-screen pixel it visits.
    #[verifier::loop_isolation(false)]
    #[verifier::rlimit(100)]
    fn walk_line(&mut self, steep: bool, x0: i64, y0: i64, x1: i64, y1: i64, colour: Colour)
        requires
            old(self).wf(),
            iabs(x0 as int) <= COORD_LIMIT as int,
            iabs(y0 as int) <= COORD_LIMIT as int,
            iabs(x1 as int) <= COORD_LIMIT as int,
            iabs(y1 as int) <= COORD_LIMIT as int,
            x0 <= x1,
            iabs(y1 as int - y0 as int) <= x1 - x0,
        ensures
            final(self).wf(),
            final(self).colour_buffer@ == Seq::new(old(self).colour_buffer@.len(), |i: int| {
                if crate::raster::line_covers_upto(steep, x0 as int, y0 as int,
                    x1 as int, y1 as int,
                    old(self).width as int, old(self).height as int, i, x1 - x0 + 1) {
                    colour
                } else {
                    old(self).colour_buffer@[i]
                }
            }),
            final(self).depth_buffer@ == old(self).depth_buffer@,
            final(self).width == old(self).width,
            final(self).height == old(self).height,
            final(self).config == old(self).config,
            final(self).camera == old(self).camera,
    {
        let ghost pre_c = self.colour_buffer@;
        let ghost wg: int = self.width as int;
        let ghost hg: int = self.height as int;
        let dx: i64 = x1 - x0;
        let derr: i64 = 2 * iabs_c(y1 - y0);
        let sy: i64 = if y1 > y0 { 1 } else { -1 };
        let mut err: i64 = 0;
        let mut y: i64 = y0;
        let mut x: i64 = x0;
        while x <= x1

            invariant
                x0 <= x <= x1 + 1,
                -dx <= err <= dx,
                iabs(y as int) <= iabs(y0 as int) + (x - x0),
                (y as int, err as int) == crate::raster::bres_state(
                    (x - x0) as nat, y0 as int, sy as int, dx as int, derr as int),
                self.width == old(self).width,
                self.height == old(self).height,
                self.config == old(self).config,
                self.camera == old(self).camera,
                self.depth_buffer@ == old(self).depth_buffer@,
                self.colour_buffer@.len() == pre_c.len(),
                forall|i: int| 0 <= i < pre_c.len() ==> #[trigger] self.colour_buffer@[i]
                    == (if crate::raster::line_covers_upto(steep, x0 as int, y0 as int,
                            x1 as int, y1 as int, wg, hg, i, x - x0) {
                        colour
                    } else {
                        pre_c[i]
                    }),
            decreases x1 + 1 - x,
        {
            let ghost k: int = x - x0;
            let px: i64 = if steep { y } else { x };
            let py: i64 = if steep { x } else { y };
            proof {
                assert(crate::raster::line_pix(steep, x0 as int, y0 as int,
                    x1 as int, y1 as int, k) == (px as int, py as int));
            }
            if 0 <= px && px < self.width as i64 && 0 <= py && py < self.height as i64 {
                proof {
                    assert((py as int) * wg <= (hg - 1) * wg) by (nonlinear_arith)
                        requires py as int <= hg - 1, wg >= 1;
                    assert((hg - 1) * wg + wg == hg * wg) by (nonlinear_arith);
                    assert((py as int) * wg >= 0) by (nonlinear_arith)
                        requires py as int >= 0, wg >= 0;
                    assert(wg * hg <= 0x4000_0000) by (nonlinear_arith)
                        requires 1 <= wg <= 0x8000, 1 <= hg <= 0x8000;
                }
                let idx: usize = (py as usize) * (self.width as usize) + (px as usize);
                self.colour_buffer.set(idx, colour);
                proof {
                    assert forall|i: int| 0 <= i < pre_c.len() implies
                        #[trigger] self.colour_buffer@[i]
                        == (if crate::raster::line_covers_upto(steep, x0 as int, y0 as int,
                                x1 as int, y1 as int, wg, hg, i, k + 1) {
                            colour
                        } else {
                            pre_c[i]
                        }) by {
                        crate::raster::lemma_covers_step(steep, x0 as int, y0 as int,
                            x1 as int, y1 as int, wg, hg, i, k);
                    };
                }
            } else {
                proof {
                    assert forall|i: int| 0 <= i < pre_c.len() implies
                        #[trigger] self.colour_buffer@[i]
                        == (if crate::raster::line_covers_upto(steep, x0 as int, y0 as int,
                                x1 as int, y1 as int, wg, hg, i, k + 1) {
                            colour
                        } else {
                            pre_c[i]
                        }) by {
                        crate::raster::lemma_covers_step(steep, x0 as int, y0 as int,
                            x1 as int, y1 as int, wg, hg, i, k);
                    };
                }
            }
            err = err + derr;
            if err > dx {
                y = y + sy;
                err = err - 2 * dx;
            }
            x = x + 1;
        }
        proof {
            assert(self.colour_buffer@ =~= Seq::new(pre_c.len(), |i: int| {
                if crate::raster::line_covers_upto(steep, x0 as int, y0 as int,
                    x1 as int, y1 as int, wg, hg, i, x1 - x0 + 1) {
                    colour
                } else {
                    pre_c[i]
                }
            }));
        }
    }
}

/// A world point mapped to the screen, the machine counterpart of
/// `to_screen_s`.
fn to_screen(vp: &Mat4, width: u32, height: u32, p: Vec3) -> (r: Option<Vec3>)
    requires
        mat_within(vp.s(), MAT_LIMIT as int),
        p.within(COORD_LIMIT as int),
        dims_ok(width as int, height as int),
    ensures
        match r {
            Some(q) => to_screen_s(vp.s(), width as int, height as int, p)
                == Some((q.x as int, q.y as int, q.z as int))
                && q.within(COORD_LIMIT as int),
            None => to_screen_s(vp.s(), width as int, height as int, p) is None,
        },
{
    let n = match vp.transform_point_c(p) {
        Some(v) => v,
        None => { return None; },
    };
    proof {
        lemma_abs_mul_bound((n.x as int) + (FX_ONE as int), width as int,
            0x10_0001_0000, 0x8000);
        lemma_abs_mul_bound((n.y as int) + (FX_ONE as int), height as int,
            0x10_0001_0000, 0x8000);
    }
    let sxw: i128 = ((n.x as i128) + (FX_ONE as i128)) * (width as i128);
    let syw: i128 = ((n.y as i128) + (FX_ONE as i128)) * (height as i128);
    let sx: i128 = idiv_t(sxw, 2);
    let sy: i128 = idiv_t(syw, 2);
    let lim: i128 = COORD_LIMIT as i128;
    if -lim <= sx && sx <= lim && -lim <= sy && sy <= lim {
        Some(Vec3 { x: sx as i64, y: sy as i64, z: n.z })
    } else {
        None
    }
}

/// The lesser of two machine integers.
fn imin_c(a: i64, b: i64) -> (r: i64)
    ensures
        r == crate::fixed::imin(a as int, b as int),
{
    if a < b { a } else { b }
}

/// The greater of two machine integers.
fn imax_c(a: i64, b: i64) -> (r: i64)
    ensures
        r == crate::fixed::imax(a as int, b as int),
{
    if a < b { b } else { a }
}

/// The edge function `cross(b - a, p - a)`, exact in `i128`.
fn edge_c(ax: i64, ay: i64, bx: i64, by: i64, px: i64, py: i64) -> (r: i128)
    requires
        iabs(ax as int) <= COORD_LIMIT as int, iabs(ay as int) <= COORD_LIMIT as int,
        iabs(bx as int) <= COORD_LIMIT as int, iabs(by as int) <= COORD_LIMIT as int,
        iabs(px as int) <= COORD_LIMIT as int, iabs(py as int) <= COORD_LIMIT as int,
    ensures
        r == ((bx as int) - (ax as int)) * ((py as int) - (ay as int))
            - ((by as int) - (ay as int)) * ((px as int) - (ax as int)),
        iabs(r as int) <= 0x8000_0000_0000_0000_0000,
{
    proof {
        lemma_abs_mul_bound((bx as int) - (ax as int), (py as int) - (ay as int),
            0x20_0000_0000, 0x20_0000_0000);
        lemma_abs_mul_bound((by as int) - (ay as int), (px as int) - (ax as int),
            0x20_0000_0000, 0x20_0000_0000);
    }
    ((bx as i128) - (ax as i128)) * ((py as i128) - (ay as i128))
        - ((by as i128) - (ay as i128)) * ((px as i128) - (ax as i128))
}

/// One shaded channel, the machine counterpart of `shade_channel`.
fn chan_c(c: u8, intensity: i128) -> (r: u8)
    requires
        iabs(intensity as int) <= 0x1_0000_0000_0000_0000_0000,
    ensures
        r == crate::raster::shade_channel(c as int, intensity as int),
{
    proof {
        lemma_abs_mul_bound(c as int, intensity as int, 0x100, 0x1_0000_0000_0000_0000_0000);
    }
    let v: i128 = idiv_t((c as i128) * intensity, FX_ONE as i128);
    let lo: i128 = if v < 0 { 0 } else { v };
    let hi: i128 = if 255 < lo { 255 } else { lo };
    hi as u8
}

/// The flat-shaded colour of a face, the machine counterpart of `shade`.
fn shade_c(col: Colour, p0: Vec3, p1: Vec3, p2: Vec3) -> (r: Colour)
    requires
        p0.within(crate::vec3::WORLD_LIMIT as int),
        p1.within(crate::vec3::WORLD_LIMIT as int),
        p2.within(crate::vec3::WORLD_LIMIT as int),
    ensures
        r == crate::raster::shade(col, p0, p1, p2),
{
    let d2x: i128 = (p2.x as i128) - (p0.x as i128);
    let d2y: i128 = (p2.y as i128) - (p0.y as i128);
    let d2z: i128 = (p2.z as i128) - (p0.z as i128);
    let d1x: i128 = (p1.x as i128) - (p0.x as i128);
    let d1y: i128 = (p1.y as i128) - (p0.y as i128);
    let d1z: i128 = (p1.z as i128) - (p0.z as i128);
    proof {
        lemma_abs_mul_bound(d2y as int, d1z as int, 0x2000_0000, 0x2000_0000);
        lemma_abs_mul_bound(d2z as int, d1y as int, 0x2000_0000, 0x2000_0000);
        lemma_abs_mul_bound(d2z as int, d1x as int, 0x2000_0000, 0x2000_0000);
        lemma_abs_mul_bound(d2x as int, d1z as int, 0x2000_0000, 0x2000_0000);
        lemma_abs_mul_bound(d2x as int, d1y as int, 0x2000_0000, 0x2000_0000);
        lemma_abs_mul_bound(d2y as int, d1x as int, 0x2000_0000, 0x2000_0000);
    }
    let nx: i128 = d2y * d1z - d2z * d1y;
    let ny: i128 = d2z * d1x - d2x * d1z;
    let nz: i128 = d2x * d1y - d2y * d1x;
    proof {
        lemma_abs_mul_bound(nx as int, nx as int, 0x1000_0000_0000_0000, 0x1000_0000_0000_0000);
        lemma_abs_mul_bound(ny as int, ny as int, 0x1000_0000_0000_0000, 0x1000_0000_0000_0000);
        lemma_abs_mul_bound(nz as int, nz as int, 0x1000_0000_0000_0000, 0x1000_0000_0000_0000);
        assert((nx as int) * (nx as int) >= 0) by (nonlinear_arith);
        assert((ny as int) * (ny as int) >= 0) by (nonlinear_arith);
        assert((nz as int) * (nz as int) >= 0) by (nonlinear_arith);
    }
    let sq: i128 = nx * nx + ny * ny + nz * nz;
    let m: u128 = crate::fixed::isqrt(sq as u128);
    if m == 0 {
        return Colour { r: 0, g: 0, b: 0, a: col.a };
    }
    proof {
        crate::fixed::lemma_sqrt_floor(sq as nat);
        assert(m as int <= 0x1_0000_0000_0000_0000) by {
            if m as int > 0x1_0000_0000_0000_0000 {
                assert((m as nat) * (m as nat)
                    > (0x1_0000_0000_0000_0000 as nat) * (0x1_0000_0000_0000_0000 as nat))
                    by (nonlinear_arith)
                    requires (m as nat) > 0x1_0000_0000_0000_0000 as nat;
            }
        }
        lemma_abs_mul_bound(nx as int, FX_ONE as int, 0x1000_0000_0000_0000, 0x1_0000);
        lemma_abs_mul_bound(ny as int, FX_ONE as int, 0x1000_0000_0000_0000, 0x1_0000);
        lemma_abs_mul_bound(nz as int, FX_ONE as int, 0x1000_0000_0000_0000, 0x1_0000);
        crate::fixed::lemma_div_t_abs((nx as int) * (FX_ONE as int), m as int);
        crate::fixed::lemma_div_t_abs((ny as int) * (FX_ONE as int), m as int);
        crate::fixed::lemma_div_t_abs((nz as int) * (FX_ONE as int), m as int);
    }
    let ux: i128 = idiv_t(nx * (FX_ONE as i128), m as i128);
    let uy: i128 = idiv_t(ny * (FX_ONE as i128), m as i128);
    let uz: i128 = idiv_t(nz * (FX_ONE as i128), m as i128);
    proof {
        lemma_abs_mul_bound(ux as int, crate::raster::LIGHT_X as int,
            0x8000_0000_0000_0000_0000, 0x1_0000);
        lemma_abs_mul_bound(uy as int, crate::raster::LIGHT_Y as int,
            0x8000_0000_0000_0000_0000, 0x1_0000);
        lemma_abs_mul_bound(uz as int, crate::raster::LIGHT_Z as int,
            0x8000_0000_0000_0000_0000, 0x1_0000);
        crate::fixed::lemma_div_t_abs(
            (ux as int) * (crate::raster::LIGHT_X as int)
            + (uy as int) * (crate::raster::LIGHT_Y as int)
            + (uz as int) * (crate::raster::LIGHT_Z as int), FX_ONE as int);
    }
    let inten: i128 = idiv_t(
        ux * (crate::raster::LIGHT_X as i128) + uy * (crate::raster::LIGHT_Y as i128)
            + uz * (crate::raster::LIGHT_Z as i128),
        FX_ONE as i128);
    Colour {
        r: chan_c(col.r, inten),
        g: chan_c(col.g, inten),
        b: chan_c(col.b, inten),
        a: col.a,
    }
}

} // verus!
