//! The library's laws: what holds of culling, of the strict depth test and
//! its order-independence, of the cleared depth buffer's sentinel, and of
//! coplanar triangles sharing an edge, each proved over the exact effect
//! functions the renderer's contracts use.

use vstd::prelude::*;
use vstd::arithmetic::div_mod::lemma_fundamental_div_mod;
use crate::colour::Colour;
use crate::fixed::{FX_ONE, iabs, lemma_abs_mul_bound, lemma_div_t_bound};
use crate::mat4::{MatS, COORD_LIMIT};
use crate::raster::{
    triangle_effect, raster_colour, raster_depth, hit_at, covered, in_bbox, tri_depth,
    area2, lam0, lam1, lam2, strictly_inside, culled, to_screen_s, dims_ok, DEPTH_SENTINEL,
};
use crate::vec3::{Vec3, WORLD_LIMIT};

verus! {

/// A pixel index splits uniquely into its row and column.
proof fn lemma_pixel_coords(i: int, w: int, h: int)
    requires
        1 <= w,
        0 <= i < w * h,
    ensures
        i == (i / w) * w + (i % w),
        0 <= i % w < w,
        0 <= i / w < h,
{
    lemma_fundamental_div_mod(i, w);
    assert(w * (i / w) == (i / w) * w) by (nonlinear_arith);
    assert(i / w < h) by {
        if i / w >= h {
            assert((i / w) * w >= h * w) by (nonlinear_arith)
                requires i / w >= h, w >= 1;
        }
    }
}

/// A covered pixel's interpolated depth stays within the range the pipeline
/// computes in: far above the sentinel, and faithful to its `i64` cast.
proof fn lemma_depth_in_range(q0: Vec3, q1: Vec3, q2: Vec3, px: int, py: int)
    requires
        q0.within(COORD_LIMIT as int),
        q1.within(COORD_LIMIT as int),
        q2.within(COORD_LIMIT as int),
        covered(q0, q1, q2, px, py),
    ensures
        iabs(tri_depth(q0, q1, q2, px, py)) <= 0x30_0000_0000,
        tri_depth(q0, q1, q2, px, py) as i64 == tri_depth(q0, q1, q2, px, py),
        tri_depth(q0, q1, q2, px, py) > DEPTH_SENTINEL as int,
{
    let a = area2(q0, q1, q2);
    lemma_abs_mul_bound(lam0(q0, q1, q2, px, py), q0.z as int, iabs(a), COORD_LIMIT as int);
    lemma_abs_mul_bound(lam1(q0, q1, q2, px, py), q1.z as int, iabs(a), COORD_LIMIT as int);
    lemma_abs_mul_bound(lam2(q0, q1, q2, px, py), q2.z as int, iabs(a), COORD_LIMIT as int);
    lemma_div_t_bound(
        lam0(q0, q1, q2, px, py) * (q0.z as int)
            + lam1(q0, q1, q2, px, py) * (q1.z as int)
            + lam2(q0, q1, q2, px, py) * (q2.z as int),
        a, 0x30_0000_0000);
}

/// A triangle that the backface cull rejects writes nothing at all to
/// either buffer.
pub proof fn lemma_culled_triangle_writes_nothing(
    c: Seq<Colour>, d: Seq<i64>, w: int, h: int,
    cam: Vec3, vp: MatS, p0: Vec3, p1: Vec3, p2: Vec3, col: Colour,
)
    requires
        culled(cam, p0, p1, p2),
    ensures
        triangle_effect(c, d, w, h, cam, vp, p0, p1, p2, col) == (c, d),
{
}

/// A triangle fully behind the camera's eye plane - every vertex failing the
/// screen mapping - writes nothing at all to either buffer.
pub proof fn lemma_behind_camera_writes_nothing(
    c: Seq<Colour>, d: Seq<i64>, w: int, h: int,
    cam: Vec3, vp: MatS, p0: Vec3, p1: Vec3, p2: Vec3, col: Colour,
)
    requires
        to_screen_s(vp, w, h, p0) is None,
        to_screen_s(vp, w, h, p1) is None,
        to_screen_s(vp, w, h, p2) is None,
    ensures
        triangle_effect(c, d, w, h, cam, vp, p0, p1, p2, col) == (c, d),
{
}

/// The depth test is a strict greater-than: rasterizing the same screen
/// triangle a second time, against the buffers the first pass left, changes
/// nothing - equal depths never overwrite.
pub proof fn lemma_raster_no_tie_overwrite(
    c: Seq<Colour>, d: Seq<i64>, q0: Vec3, q1: Vec3, q2: Vec3, w: int, h: int, sh: Colour,
)
    requires
        dims_ok(w, h),
        c.len() == w * h,
        d.len() == w * h,
        q0.within(COORD_LIMIT as int),
        q1.within(COORD_LIMIT as int),
        q2.within(COORD_LIMIT as int),
    ensures
        raster_colour(
            raster_colour(c, d, q0, q1, q2, w, h, sh),
            raster_depth(d, q0, q1, q2, w, h), q0, q1, q2, w, h, sh)
            == raster_colour(c, d, q0, q1, q2, w, h, sh),
        raster_depth(
            raster_depth(d, q0, q1, q2, w, h), q0, q1, q2, w, h)
            == raster_depth(d, q0, q1, q2, w, h),
{
    let rc = raster_colour(c, d, q0, q1, q2, w, h, sh);
    let rd = raster_depth(d, q0, q1, q2, w, h);
    assert forall|i: int| 0 <= i < w * h implies
        !(#[trigger] hit_at(q0, q1, q2, w, h, rd, i % w, i / w)) by {
        lemma_pixel_coords(i, w, h);
        let x = i % w;
        let y = i / w;
        if covered(q0, q1, q2, x * (FX_ONE as int), y * (FX_ONE as int)) {
            lemma_depth_in_range(q0, q1, q2, x * (FX_ONE as int), y * (FX_ONE as int));
        }
    };
    assert(raster_colour(rc, rd, q0, q1, q2, w, h, sh) =~= rc);
    assert(raster_depth(rd, q0, q1, q2, w, h) =~= rd);
}

/// Rendering the same world triangle twice in a row leaves exactly the
/// buffers of the first pass: ties in depth never overwrite.
pub proof fn lemma_second_draw_changes_nothing(
    c: Seq<Colour>, d: Seq<i64>, w: int, h: int,
    cam: Vec3, vp: MatS, p0: Vec3, p1: Vec3, p2: Vec3, col: Colour,
)
    requires
        dims_ok(w, h),
        c.len() == w * h,
        d.len() == w * h,
    ensures
        ({
            let e1 = triangle_effect(c, d, w, h, cam, vp, p0, p1, p2, col);
            triangle_effect(e1.0, e1.1, w, h, cam, vp, p0, p1, p2, col) == e1
        }),
{
    if p0.within(WORLD_LIMIT as int) && p1.within(WORLD_LIMIT as int)
        && p2.within(WORLD_LIMIT as int) && !culled(cam, p0, p1, p2) {
        match (to_screen_s(vp, w, h, p0), to_screen_s(vp, w, h, p1), to_screen_s(vp, w, h, p2)) {
            (Some(t0), Some(t1), Some(t2)) => {
                let q0 = Vec3 { x: t0.0 as i64, y: t0.1 as i64, z: t0.2 as i64 };
                let q1 = Vec3 { x: t1.0 as i64, y: t1.1 as i64, z: t1.2 as i64 };
                let q2 = Vec3 { x: t2.0 as i64, y: t2.1 as i64, z: t2.2 as i64 };
                if !crate::raster::bb_degenerate(q0, q1, q2, w, h) {
                    lemma_raster_no_tie_overwrite(c, d, q0, q1, q2, w, h,
                        crate::raster::shade(col, p0, p1, p2));
                }
            },
            _ => {},
        }
    }
}

/// The depth test resolves overlap independently of submission order: where
/// the second triangle is strictly nearer at every pixel both cover, the two
/// submission orders leave identical colour and depth buffers, and the
/// nearer triangle's colour stands at every doubly covered pixel it wins.
pub proof fn lemma_raster_order_independent(
    c: Seq<Colour>, d: Seq<i64>,
    qa0: Vec3, qa1: Vec3, qa2: Vec3, qb0: Vec3, qb1: Vec3, qb2: Vec3,
    w: int, h: int, sa: Colour, sb: Colour,
)
    requires
        dims_ok(w, h),
        c.len() == w * h,
        d.len() == w * h,
        qa0.within(COORD_LIMIT as int),
        qa1.within(COORD_LIMIT as int),
        qa2.within(COORD_LIMIT as int),
        qb0.within(COORD_LIMIT as int),
        qb1.within(COORD_LIMIT as int),
        qb2.within(COORD_LIMIT as int),
        forall|x: int, y: int|
            in_bbox(qa0, qa1, qa2, w, h, x, y)
            && #[trigger] covered(qa0, qa1, qa2, x * (FX_ONE as int), y * (FX_ONE as int))
            && in_bbox(qb0, qb1, qb2, w, h, x, y)
            && #[trigger] covered(qb0, qb1, qb2, x * (FX_ONE as int), y * (FX_ONE as int))
            ==> tri_depth(qb0, qb1, qb2, x * (FX_ONE as int), y * (FX_ONE as int))
                > tri_depth(qa0, qa1, qa2, x * (FX_ONE as int), y * (FX_ONE as int)),
    ensures
        ({
            let ca = raster_colour(c, d, qa0, qa1, qa2, w, h, sa);
            let da = raster_depth(d, qa0, qa1, qa2, w, h);
            let cb = raster_colour(c, d, qb0, qb1, qb2, w, h, sb);
            let db = raster_depth(d, qb0, qb1, qb2, w, h);
            raster_colour(ca, da, qb0, qb1, qb2, w, h, sb)
                == raster_colour(cb, db, qa0, qa1, qa2, w, h, sa)
            && raster_depth(da, qb0, qb1, qb2, w, h)
                == raster_depth(db, qa0, qa1, qa2, w, h)
        }),
        forall|i: int| 0 <= i < w * h
            && in_bbox(qb0, qb1, qb2, w, h, i % w, i / w)
            && in_bbox(qa0, qa1, qa2, w, h, i % w, i / w)
            && #[trigger] covered(qb0, qb1, qb2,
                (i % w) * (FX_ONE as int), (i / w) * (FX_ONE as int))
            && covered(qa0, qa1, qa2,
                (i % w) * (FX_ONE as int), (i / w) * (FX_ONE as int))
            && tri_depth(qb0, qb1, qb2,
                (i % w) * (FX_ONE as int), (i / w) * (FX_ONE as int)) > d[i]
            ==> raster_colour(
                raster_colour(c, d, qa0, qa1, qa2, w, h, sa),
                raster_depth(d, qa0, qa1, qa2, w, h), qb0, qb1, qb2, w, h, sb)[i] == sb,
{
    let ca = raster_colour(c, d, qa0, qa1, qa2, w, h, sa);
    let da = raster_depth(d, qa0, qa1, qa2, w, h);
    let cb = raster_colour(c, d, qb0, qb1, qb2, w, h, sb);
    let db = raster_depth(d, qb0, qb1, qb2, w, h);
    assert forall|i: int| 0 <= i < w * h implies
        #[trigger] raster_colour(ca, da, qb0, qb1, qb2, w, h, sb)[i]
            == raster_colour(cb, db, qa0, qa1, qa2, w, h, sa)[i] by {
        lemma_pixel_coords(i, w, h);
        let x = i % w;
        let y = i / w;
        if covered(qa0, qa1, qa2, x * (FX_ONE as int), y * (FX_ONE as int)) {
            lemma_depth_in_range(qa0, qa1, qa2, x * (FX_ONE as int), y * (FX_ONE as int));
        }
        if covered(qb0, qb1, qb2, x * (FX_ONE as int), y * (FX_ONE as int)) {
            lemma_depth_in_range(qb0, qb1, qb2, x * (FX_ONE as int), y * (FX_ONE as int));
        }
    };
    assert forall|i: int| 0 <= i < w * h implies
        #[trigger] raster_depth(da, qb0, qb1, qb2, w, h)[i]
            == raster_depth(db, qa0, qa1, qa2, w, h)[i] by {
        lemma_pixel_coords(i, w, h);
        let x = i % w;
        let y = i / w;
        if covered(qa0, qa1, qa2, x * (FX_ONE as int), y * (FX_ONE as int)) {
            lemma_depth_in_range(qa0, qa1, qa2, x * (FX_ONE as int), y * (FX_ONE as int));
        }
        if covered(qb0, qb1, qb2, x * (FX_ONE as int), y * (FX_ONE as int)) {
            lemma_depth_in_range(qb0, qb1, qb2, x * (FX_ONE as int), y * (FX_ONE as int));
        }
    };
    assert(raster_colour(ca, da, qb0, qb1, qb2, w, h, sb)
        =~= raster_colour(cb, db, qa0, qa1, qa2, w, h, sa));
    assert(raster_depth(da, qb0, qb1, qb2, w, h)
        =~= raster_depth(db, qa0, qa1, qa2, w, h));
    assert forall|i: int| 0 <= i < w * h
        && in_bbox(qb0, qb1, qb2, w, h, i % w, i / w)
        && in_bbox(qa0, qa1, qa2, w, h, i % w, i / w)
        && #[trigger] covered(qb0, qb1, qb2,
            (i % w) * (FX_ONE as int), (i / w) * (FX_ONE as int))
        && covered(qa0, qa1, qa2,
            (i % w) * (FX_ONE as int), (i / w) * (FX_ONE as int))
        && tri_depth(qb0, qb1, qb2,
            (i % w) * (FX_ONE as int), (i / w) * (FX_ONE as int)) > d[i]
        implies raster_colour(ca, da, qb0, qb1, qb2, w, h, sb)[i] == sb by {
        lemma_pixel_coords(i, w, h);
        let x = i % w;
        let y = i / w;
        lemma_depth_in_range(qa0, qa1, qa2, x * (FX_ONE as int), y * (FX_ONE as int));
        lemma_depth_in_range(qb0, qb1, qb2, x * (FX_ONE as int), y * (FX_ONE as int));
    };
}

/// Whether the second of two world triangles is strictly nearer at every
/// pixel their screen projections both cover; holds vacuously where either
/// fails the screen mapping.
pub open spec fn second_nearer(
    vp: MatS, w: int, h: int,
    a0: Vec3, a1: Vec3, a2: Vec3, b0: Vec3, b1: Vec3, b2: Vec3,
) -> bool {
    match (crate::raster::screen_tri(vp, w, h, a0, a1, a2),
           crate::raster::screen_tri(vp, w, h, b0, b1, b2)) {
        (Some(qa), Some(qb)) => forall|x: int, y: int|
            in_bbox(qa.0, qa.1, qa.2, w, h, x, y)
            && #[trigger] covered(qa.0, qa.1, qa.2, x * (FX_ONE as int), y * (FX_ONE as int))
            && in_bbox(qb.0, qb.1, qb.2, w, h, x, y)
            && #[trigger] covered(qb.0, qb.1, qb.2, x * (FX_ONE as int), y * (FX_ONE as int))
            ==> tri_depth(qb.0, qb.1, qb.2, x * (FX_ONE as int), y * (FX_ONE as int))
                > tri_depth(qa.0, qa.1, qa.2, x * (FX_ONE as int), y * (FX_ONE as int)),
        _ => true,
    }
}

/// Rendering two world triangles is order-independent wherever the second is
/// strictly nearer at every pixel both cover: the final colour and depth
/// buffers are identical for the two submission orders.
pub proof fn lemma_draw_order_independent(
    c: Seq<Colour>, d: Seq<i64>, w: int, h: int, cam: Vec3, vp: MatS,
    a0: Vec3, a1: Vec3, a2: Vec3, ca: Colour,
    b0: Vec3, b1: Vec3, b2: Vec3, cb: Colour,
)
    requires
        dims_ok(w, h),
        c.len() == w * h,
        d.len() == w * h,
        second_nearer(vp, w, h, a0, a1, a2, b0, b1, b2),
    ensures
        ({
            let ea = triangle_effect(c, d, w, h, cam, vp, a0, a1, a2, ca);
            let eb = triangle_effect(c, d, w, h, cam, vp, b0, b1, b2, cb);
            triangle_effect(ea.0, ea.1, w, h, cam, vp, b0, b1, b2, cb)
                == triangle_effect(eb.0, eb.1, w, h, cam, vp, a0, a1, a2, ca)
        }),
{
    match (crate::raster::screen_tri(vp, w, h, a0, a1, a2),
           crate::raster::screen_tri(vp, w, h, b0, b1, b2)) {
        (Some(qa), Some(qb)) => {
            let within_a = a0.within(WORLD_LIMIT as int) && a1.within(WORLD_LIMIT as int)
                && a2.within(WORLD_LIMIT as int);
            let within_b = b0.within(WORLD_LIMIT as int) && b1.within(WORLD_LIMIT as int)
                && b2.within(WORLD_LIMIT as int);
            if within_a && !culled(cam, a0, a1, a2)
                && !crate::raster::bb_degenerate(qa.0, qa.1, qa.2, w, h)
                && within_b && !culled(cam, b0, b1, b2)
                && !crate::raster::bb_degenerate(qb.0, qb.1, qb.2, w, h) {
                lemma_raster_order_independent(
                    c, d, qa.0, qa.1, qa.2, qb.0, qb.1, qb.2, w, h,
                    crate::raster::shade(ca, a0, a1, a2), crate::raster::shade(cb, b0, b1, b2));
            }
        },
        _ => {},
    }
}

/// The cleared depth buffer's sentinel never survives a test against a
/// computed depth: over a cleared buffer, a pixel is written exactly where
/// it lies in the bounding box and strictly inside the triangle - the first
/// write always wins.
pub proof fn lemma_sentinel_always_loses(
    d: Seq<i64>, q0: Vec3, q1: Vec3, q2: Vec3, w: int, h: int, x: int, y: int,
)
    requires
        dims_ok(w, h),
        d.len() == w * h,
        q0.within(COORD_LIMIT as int),
        q1.within(COORD_LIMIT as int),
        q2.within(COORD_LIMIT as int),
        0 <= x < w,
        0 <= y < h,
        forall|i: int| 0 <= i < d.len() ==> #[trigger] d[i] == DEPTH_SENTINEL,
    ensures
        hit_at(q0, q1, q2, w, h, d, x, y)
            == (in_bbox(q0, q1, q2, w, h, x, y)
                && covered(q0, q1, q2, x * (FX_ONE as int), y * (FX_ONE as int))),
{
    let pxf = x * (FX_ONE as int);
    let pyf = y * (FX_ONE as int);
    if covered(q0, q1, q2, pxf, pyf) {
        let a = area2(q0, q1, q2);
        lemma_abs_mul_bound(lam0(q0, q1, q2, pxf, pyf), q0.z as int, iabs(a), COORD_LIMIT as int);
        lemma_abs_mul_bound(lam1(q0, q1, q2, pxf, pyf), q1.z as int, iabs(a), COORD_LIMIT as int);
        lemma_abs_mul_bound(lam2(q0, q1, q2, pxf, pyf), q2.z as int, iabs(a), COORD_LIMIT as int);
        lemma_div_t_bound(
            lam0(q0, q1, q2, pxf, pyf) * (q0.z as int)
                + lam1(q0, q1, q2, pxf, pyf) * (q1.z as int)
                + lam2(q0, q1, q2, pxf, pyf) * (q2.z as int),
            a, 0x30_0000_0000);
        assert(tri_depth(q0, q1, q2, pxf, pyf) > DEPTH_SENTINEL as int);
        assert((y * w + x) < w * h && 0 <= y * w + x) by (nonlinear_arith)
            requires 0 <= x < w, 0 <= y < h;
    }
}

/// Two coplanar screen triangles sharing the edge `a-b` with opposite
/// winding along it, wound consistently (their signed areas agree in sign),
/// never both cover a pixel: the exclusive bounds leave every shared-edge
/// pixel to at most one of them, so nothing is double-drawn.
pub proof fn lemma_shared_edge_exclusive(
    a: Vec3, b: Vec3, c: Vec3, d: Vec3, px: int, py: int,
)
    requires
        area2(a, b, c) != 0,
        area2(b, a, d) != 0,
        (area2(a, b, c) > 0) == (area2(b, a, d) > 0),
    ensures
        !(covered(a, b, c, px, py) && covered(b, a, d, px, py)),
{
    let e1 = lam2(a, b, c, px, py);
    let e2 = lam2(b, a, d, px, py);
    assert(e1 == (b.x - a.x) * (py - a.y as int) - (b.y - a.y) * (px - a.x as int));
    assert(e2 == (a.x - b.x) * (py - b.y as int) - (a.y - b.y) * (px - b.x as int));
    assert(((b.x - a.x) * (py - a.y as int) - (b.y - a.y) * (px - a.x as int))
        + ((a.x - b.x) * (py - b.y as int) - (a.y - b.y) * (px - b.x as int)) == 0)
        by (nonlinear_arith);
    assert(e1 + e2 == 0);
    if covered(a, b, c, px, py) && covered(b, a, d, px, py) {
        assert(strictly_inside(e1, area2(a, b, c)));
        assert(strictly_inside(e2, area2(b, a, d)));
    }
}

} // verus!
