//! The mathematics of the rasterizer, stated exactly over the integers: the
//! screen mapping, the backface cull, the bounding box, barycentric coverage
//! with exclusive bounds, flat shading, and the per-pixel depth test. The
//! renderer's contracts say that its buffers become precisely what these
//! functions describe.

use vstd::prelude::*;
use crate::colour::Colour;
use crate::fixed::{FX_ONE, iabs, div_t, clamp_s, sqrt_floor, imin, imax};
use crate::mat4::{MatS, tp_s, COORD_LIMIT};
use crate::vec3::{Vec3, WORLD_LIMIT, cross_x, cross_y, cross_z, dot3};
use crate::camera::norm_sq;

verus! {

/// The depth buffer's "infinitely far" sentinel: the least `i64`, which any
/// computed depth beats in the strict greater-than test.
pub const DEPTH_SENTINEL: i64 = i64::MIN;

/// The fixed directional light, the Q16.16 unit vector towards
/// `(-1, -0.5, -0.25)`.
pub const LIGHT_X: i64 = -57206;

/// See `LIGHT_X`.
pub const LIGHT_Y: i64 = -28603;

/// See `LIGHT_X`.
pub const LIGHT_Z: i64 = -14301;

/// Whether the frame dimensions are ones a renderer can hold.
pub open spec fn dims_ok(w: int, h: int) -> bool {
    1 <= w <= 0x8000 && 1 <= h <= 0x8000
}

/// The x component of the face normal `(p2 - p0) x (p1 - p0)`; the operand
/// order fixes the front-facing winding.
pub open spec fn normal_x(p0: Vec3, p1: Vec3, p2: Vec3) -> int {
    cross_x(p2.x - p0.x, p2.y - p0.y, p2.z - p0.z, p1.x - p0.x, p1.y - p0.y, p1.z - p0.z)
}

/// The y component of the face normal.
pub open spec fn normal_y(p0: Vec3, p1: Vec3, p2: Vec3) -> int {
    cross_y(p2.x - p0.x, p2.y - p0.y, p2.z - p0.z, p1.x - p0.x, p1.y - p0.y, p1.z - p0.z)
}

/// The z component of the face normal.
pub open spec fn normal_z(p0: Vec3, p1: Vec3, p2: Vec3) -> int {
    cross_z(p2.x - p0.x, p2.y - p0.y, p2.z - p0.z, p1.x - p0.x, p1.y - p0.y, p1.z - p0.z)
}

/// How far `p` sits along the face normal, seen from the camera at `cam`.
pub open spec fn visibility(cam: Vec3, p: Vec3, p0: Vec3, p1: Vec3, p2: Vec3) -> int {
    dot3(p.x - cam.x, p.y - cam.y, p.z - cam.z,
         normal_x(p0, p1, p2), normal_y(p0, p1, p2), normal_z(p0, p1, p2))
}

/// The backface cull: the triangle is discarded where it faces away from the
/// camera at every vertex.
pub open spec fn culled(cam: Vec3, p0: Vec3, p1: Vec3, p2: Vec3) -> bool {
    visibility(cam, p0, p0, p1, p2) < 0
    && visibility(cam, p1, p0, p1, p2) < 0
    && visibility(cam, p2, p0, p1, p2) < 0
}

/// A world point mapped to the screen: through the view-projection to
/// normalized device coordinates, then x and y from `[-1, 1]` onto
/// `[0, w] x [0, h]` (no vertical flip); z carries the reverse depth.
pub open spec fn to_screen_s(vp: MatS, w: int, h: int, p: Vec3) -> Option<(int, int, int)> {
    match tp_s(vp, p.x as int, p.y as int, p.z as int) {
        None => None,
        Some(n) => {
            let (nx, ny, nz) = n;
            let sx = div_t((nx + FX_ONE as int) * w, 2);
            let sy = div_t((ny + FX_ONE as int) * h, 2);
            if iabs(sx) <= COORD_LIMIT as int && iabs(sy) <= COORD_LIMIT as int {
                Some((sx, sy, nz))
            } else {
                None
            }
        },
    }
}

/// Twice the signed area of the screen triangle, over Q16.16 coordinates.
pub open spec fn area2(q0: Vec3, q1: Vec3, q2: Vec3) -> int {
    (q1.x - q0.x) * (q2.y - q0.y) - (q1.y - q0.y) * (q2.x - q0.x)
}

/// The barycentric numerator of vertex `q0` at the point `(px, py)`: twice
/// the signed area of the triangle `(q1, q2, p)`.
pub open spec fn lam0(q0: Vec3, q1: Vec3, q2: Vec3, px: int, py: int) -> int {
    (q2.x - q1.x) * (py - q1.y as int) - (q2.y - q1.y) * (px - q1.x as int)
}

/// The barycentric numerator of vertex `q1`.
pub open spec fn lam1(q0: Vec3, q1: Vec3, q2: Vec3, px: int, py: int) -> int {
    (q0.x - q2.x) * (py - q2.y as int) - (q0.y - q2.y) * (px - q2.x as int)
}

/// The barycentric numerator of vertex `q2`.
pub open spec fn lam2(q0: Vec3, q1: Vec3, q2: Vec3, px: int, py: int) -> int {
    (q1.x - q0.x) * (py - q0.y as int) - (q1.y - q0.y) * (px - q0.x as int)
}

/// Whether a number sits strictly between 0 and `a`, on whichever side of
/// zero `a` lies: the exact sense in which a barycentric coordinate
/// `l / a` lies in the open interval `(0, 1)`.
pub open spec fn strictly_inside(l: int, a: int) -> bool {
    if a > 0 {
        0 < l < a
    } else {
        a < l < 0
    }
}

/// Whether the pixel point `(px, py)` (Q16.16) lies strictly inside the
/// screen triangle: every barycentric coordinate in the open `(0, 1)`, so
/// that triangles sharing an edge never both cover an edge pixel.
pub open spec fn covered(q0: Vec3, q1: Vec3, q2: Vec3, px: int, py: int) -> bool {
    let a = area2(q0, q1, q2);
    a != 0
    && strictly_inside(lam0(q0, q1, q2, px, py), a)
    && strictly_inside(lam1(q0, q1, q2, px, py), a)
    && strictly_inside(lam2(q0, q1, q2, px, py), a)
}

/// The interpolated depth at a covered pixel: the barycentric blend of the
/// three vertices' reverse depths.
pub open spec fn tri_depth(q0: Vec3, q1: Vec3, q2: Vec3, px: int, py: int) -> int {
    div_t(
        lam0(q0, q1, q2, px, py) * (q0.z as int)
        + lam1(q0, q1, q2, px, py) * (q1.z as int)
        + lam2(q0, q1, q2, px, py) * (q2.z as int),
        area2(q0, q1, q2),
    )
}

/// The floor of a Q16.16 coordinate.
pub open spec fn floor_fx(v: int) -> int {
    v / (FX_ONE as int)
}

/// The ceiling of a Q16.16 coordinate.
pub open spec fn ceil_fx(v: int) -> int {
    -((-v) / (FX_ONE as int))
}

/// The left column of the clamped bounding box.
pub open spec fn bb_lo_x(q0: Vec3, q1: Vec3, q2: Vec3, w: int) -> int {
    imax(0, imin(w - 1, imin(floor_fx(q0.x as int), imin(floor_fx(q1.x as int), floor_fx(q2.x as int)))))
}

/// The top row of the clamped bounding box.
pub open spec fn bb_lo_y(q0: Vec3, q1: Vec3, q2: Vec3, h: int) -> int {
    imax(0, imin(h - 1, imin(floor_fx(q0.y as int), imin(floor_fx(q1.y as int), floor_fx(q2.y as int)))))
}

/// The right column of the clamped bounding box.
pub open spec fn bb_hi_x(q0: Vec3, q1: Vec3, q2: Vec3, w: int) -> int {
    imin(w - 1, imax(0, imax(ceil_fx(q0.x as int), imax(ceil_fx(q1.x as int), ceil_fx(q2.x as int)))))
}

/// The bottom row of the clamped bounding box.
pub open spec fn bb_hi_y(q0: Vec3, q1: Vec3, q2: Vec3, h: int) -> int {
    imin(h - 1, imax(0, imax(ceil_fx(q0.y as int), imax(ceil_fx(q1.y as int), ceil_fx(q2.y as int)))))
}

/// Whether the clamped bounding box has no width or no height, in which case
/// the triangle is discarded.
pub open spec fn bb_degenerate(q0: Vec3, q1: Vec3, q2: Vec3, w: int, h: int) -> bool {
    bb_hi_x(q0, q1, q2, w) == bb_lo_x(q0, q1, q2, w)
    || bb_hi_y(q0, q1, q2, h) == bb_lo_y(q0, q1, q2, h)
}

/// Whether pixel `(x, y)` lies in the clamped bounding box.
pub open spec fn in_bbox(q0: Vec3, q1: Vec3, q2: Vec3, w: int, h: int, x: int, y: int) -> bool {
    bb_lo_x(q0, q1, q2, w) <= x <= bb_hi_x(q0, q1, q2, w)
    && bb_lo_y(q0, q1, q2, h) <= y <= bb_hi_y(q0, q1, q2, h)
}

/// One shaded colour channel: the channel scaled by the Q16.16 lighting
/// intensity and clamped into `[0, 255]`; a non-positive intensity shades
/// the channel black rather than discarding the triangle, since culling has
/// already removed geometry that faces away.
pub open spec fn shade_channel(c: int, intensity: int) -> u8 {
    clamp_s(div_t(c * intensity, FX_ONE as int), 0, 255) as u8
}

/// The Q16.16 lighting intensity of a face: the dot product of its unit
/// normal with the fixed unit light direction; 0 for a degenerate face.
pub open spec fn light_intensity(p0: Vec3, p1: Vec3, p2: Vec3) -> int {
    let nx = normal_x(p0, p1, p2);
    let ny = normal_y(p0, p1, p2);
    let nz = normal_z(p0, p1, p2);
    let m = sqrt_floor(norm_sq(nx, ny, nz) as nat) as int;
    if m == 0 {
        0
    } else {
        let ux = div_t(nx * (FX_ONE as int), m);
        let uy = div_t(ny * (FX_ONE as int), m);
        let uz = div_t(nz * (FX_ONE as int), m);
        div_t(ux * (LIGHT_X as int) + uy * (LIGHT_Y as int) + uz * (LIGHT_Z as int), FX_ONE as int)
    }
}

/// The flat-shaded colour of a face: each colour channel scaled by the
/// lighting intensity, the alpha carried through unchanged.
pub open spec fn shade(col: Colour, p0: Vec3, p1: Vec3, p2: Vec3) -> Colour {
    let i = light_intensity(p0, p1, p2);
    Colour {
        r: shade_channel(col.r as int, i),
        g: shade_channel(col.g as int, i),
        b: shade_channel(col.b as int, i),
        a: col.a,
    }
}

/// Whether the rasterizer writes pixel `(x, y)`: it lies in the bounding
/// box, strictly inside the triangle, and its interpolated depth is strictly
/// greater (nearer) than what the depth buffer holds.
pub open spec fn hit_at(
    q0: Vec3, q1: Vec3, q2: Vec3, w: int, h: int, depth_pre: Seq<i64>, x: int, y: int,
) -> bool {
    in_bbox(q0, q1, q2, w, h, x, y)
    && covered(q0, q1, q2, x * (FX_ONE as int), y * (FX_ONE as int))
    && tri_depth(q0, q1, q2, x * (FX_ONE as int), y * (FX_ONE as int)) > depth_pre[y * w + x]
}

/// Whether pixel index `i` has already been visited by a row-major sweep of
/// the box `[lox, hix] x [loy, hiy]` that currently stands at `(x, y)`.
pub open spec fn done_before(
    i: int, w: int, lox: int, hix: int, loy: int, hiy: int, x: int, y: int,
) -> bool {
    let px = i % w;
    let py = i / w;
    lox <= px <= hix && loy <= py <= hiy && (py < y || (py == y && px < x))
}

/// Advancing a row-major sweep by one column changes which pixels are done
/// only at the cell just visited.
pub proof fn lemma_done_step_col(
    i: int, w: int, lox: int, hix: int, loy: int, hiy: int, x: int, y: int,
)
    requires
        1 <= w,
        0 <= i,
        i != y * w + x,
    ensures
        done_before(i, w, lox, hix, loy, hiy, x + 1, y)
            == done_before(i, w, lox, hix, loy, hiy, x, y),
{
    if i % w == x && i / w == y {
        vstd::arithmetic::div_mod::lemma_fundamental_div_mod(i, w);
        assert(w * (i / w) == (i / w) * w) by (nonlinear_arith);
    }
}

/// Stepping the sweep from the end of one row to the start of the next
/// leaves the set of done pixels unchanged.
pub proof fn lemma_done_step_row(
    i: int, w: int, lox: int, hix: int, loy: int, hiy: int, y: int,
)
    ensures
        done_before(i, w, lox, hix, loy, hiy, lox, y + 1)
            == done_before(i, w, lox, hix, loy, hiy, hix + 1, y),
{
}

/// The colour buffer after one screen triangle is rasterized.
pub open spec fn raster_colour(
    colour_pre: Seq<Colour>, depth_pre: Seq<i64>,
    q0: Vec3, q1: Vec3, q2: Vec3, w: int, h: int, shaded: Colour,
) -> Seq<Colour> {
    Seq::new(colour_pre.len(), |i: int| {
        if hit_at(q0, q1, q2, w, h, depth_pre, i % w, i / w) {
            shaded
        } else {
            colour_pre[i]
        }
    })
}

/// The depth buffer after one screen triangle is rasterized.
pub open spec fn raster_depth(
    depth_pre: Seq<i64>, q0: Vec3, q1: Vec3, q2: Vec3, w: int, h: int,
) -> Seq<i64> {
    Seq::new(depth_pre.len(), |i: int| {
        if hit_at(q0, q1, q2, w, h, depth_pre, i % w, i / w) {
            tri_depth(q0, q1, q2,
                (i % w) * (FX_ONE as int), (i / w) * (FX_ONE as int)) as i64
        } else {
            depth_pre[i]
        }
    })
}

/// The integer pixel at or toward zero from a Q16.16 coordinate: how a
/// projected endpoint becomes a line endpoint.
pub open spec fn trunc_px(v: int) -> int {
    div_t(v, FX_ONE as int)
}

/// The line walker's state after `k` steps along the major axis: the minor
/// coordinate and the accumulated error. Each step adds `derr` to the error
/// and, when it exceeds `dx`, moves the minor coordinate one pixel toward
/// the far endpoint and pays `2 * dx` back.
pub open spec fn bres_state(k: nat, y0: int, sy: int, dx: int, derr: int) -> (int, int)
    decreases k,
{
    if k == 0 {
        (y0, 0)
    } else {
        let prev = bres_state((k - 1) as nat, y0, sy, dx, derr);
        let e2 = prev.1 + derr;
        if e2 > dx {
            (prev.0 + sy, e2 - 2 * dx)
        } else {
            (prev.0, e2)
        }
    }
}

/// The screen pixel the line writes at step `k`, for normalized endpoints
/// (`x0 <= x1`, major axis along x); a steep line swaps the roles back.
pub open spec fn line_pix(
    steep: bool, x0: int, y0: int, x1: int, y1: int, k: int,
) -> (int, int) {
    let sy: int = if y1 > y0 { 1 } else { -1 };
    let st = bres_state(k as nat, y0, sy, x1 - x0, 2 * iabs(y1 - y0));
    if steep {
        (st.0, x0 + k)
    } else {
        (x0 + k, st.0)
    }
}

/// Whether buffer index `i` is one of the on-screen pixels of the first
/// `kmax` steps of the line.
pub open spec fn line_covers_upto(
    steep: bool, x0: int, y0: int, x1: int, y1: int, w: int, h: int, i: int, kmax: int,
) -> bool {
    exists|k: int| 0 <= k < kmax && {
        let p = #[trigger] line_pix(steep, x0, y0, x1, y1, k);
        0 <= p.0 < w && 0 <= p.1 < h && i == p.1 * w + p.0
    }
}

/// The walker's error term measures exactly how far its minor coordinate has
/// drifted from the ideal segment, and it stays within half a pixel in
/// doubled units.
pub proof fn lemma_bres_tracks(k: nat, y0: int, sy: int, dx: int, ady: int)
    requires
        0 <= ady <= dx,
        sy == 1 || sy == -1,
    ensures
        ({
            let st = bres_state(k, y0, sy, dx, 2 * ady);
            st.1 == 2 * ady * k - 2 * (dx * (sy * (st.0 - y0)))
            && -dx <= st.1 <= dx
            && 0 <= sy * (st.0 - y0)
        }),
    decreases k,
{
    if k == 0 {
        assert(2 * ady * 0 == 0) by (nonlinear_arith);
        assert(dx * (sy * (y0 - y0)) == 0) by (nonlinear_arith);
    } else {
        lemma_bres_tracks((k - 1) as nat, y0, sy, dx, ady);
        let prev = bres_state((k - 1) as nat, y0, sy, dx, 2 * ady);
        let st = bres_state(k, y0, sy, dx, 2 * ady);
        let m = sy * (prev.0 - y0);
        assert(2 * ady * (k as int) == 2 * ady * (k - 1) + 2 * ady) by (nonlinear_arith);
        let e2 = prev.1 + 2 * ady;
        if e2 > dx {
            assert(sy * (prev.0 + sy - y0) == m + 1) by (nonlinear_arith)
                requires sy == 1 || sy == -1, m == sy * (prev.0 - y0);
            assert(dx * (m + 1) == dx * m + dx) by (nonlinear_arith);
        }
    }
}

/// Every pixel the line walker writes lies within half a pixel of the exact
/// segment between its endpoints: twice the signed gap between the walker's
/// minor coordinate and the ideal one never exceeds the major extent.
pub proof fn lemma_line_pixel_near_segment(
    steep: bool, x0: int, y0: int, x1: int, y1: int, k: int,
)
    requires
        0 <= k <= x1 - x0,
        iabs(y1 - y0) <= x1 - x0,
    ensures
        ({
            let p = line_pix(steep, x0, y0, x1, y1, k);
            let ym = if steep { p.0 } else { p.1 };
            iabs(2 * ((y1 - y0) * k - (x1 - x0) * (ym - y0))) <= x1 - x0
        }),
{
    let sy: int = if y1 > y0 { 1 } else { -1 };
    let ady = iabs(y1 - y0);
    let dx = x1 - x0;
    lemma_bres_tracks(k as nat, y0, sy, dx, ady);
    let st = bres_state(k as nat, y0, sy, dx, 2 * ady);
    let m = sy * (st.0 - y0);
    assert((y1 - y0) * k == sy * (ady * k)) by (nonlinear_arith)
        requires sy == 1 || sy == -1, ady == iabs(y1 - y0),
            (y1 > y0 ==> sy == 1) && (y1 <= y0 ==> sy == -1);
    assert(dx * (st.0 - y0) == sy * (dx * m)) by (nonlinear_arith)
        requires sy == 1 || sy == -1, m == sy * (st.0 - y0);
    assert(2 * (sy * (ady * k) - sy * (dx * m)) == sy * (2 * ady * k - 2 * (dx * m)))
        by (nonlinear_arith);
    assert(iabs(sy * (2 * ady * k - 2 * (dx * m)))
        == iabs(2 * ady * k - 2 * (dx * m))) by (nonlinear_arith)
        requires sy == 1 || sy == -1;
}

/// Extending the walk by one step adds exactly the step's own pixel, where
/// it is on screen.
pub proof fn lemma_covers_step(
    steep: bool, x0: int, y0: int, x1: int, y1: int, w: int, h: int, i: int, k: int,
)
    requires
        0 <= k,
    ensures
        line_covers_upto(steep, x0, y0, x1, y1, w, h, i, k + 1)
            == (line_covers_upto(steep, x0, y0, x1, y1, w, h, i, k) || {
                let p = line_pix(steep, x0, y0, x1, y1, k);
                0 <= p.0 < w && 0 <= p.1 < h && i == p.1 * w + p.0
            }),
{
    if line_covers_upto(steep, x0, y0, x1, y1, w, h, i, k + 1) {
        let kw = choose|kw: int| 0 <= kw < k + 1 && {
            let p = #[trigger] line_pix(steep, x0, y0, x1, y1, kw);
            0 <= p.0 < w && 0 <= p.1 < h && i == p.1 * w + p.0
        };
        if kw < k {
            assert(line_covers_upto(steep, x0, y0, x1, y1, w, h, i, k));
        }
    }
    if line_covers_upto(steep, x0, y0, x1, y1, w, h, i, k) {
        let kw = choose|kw: int| 0 <= kw < k && {
            let p = #[trigger] line_pix(steep, x0, y0, x1, y1, kw);
            0 <= p.0 < w && 0 <= p.1 < h && i == p.1 * w + p.0
        };
        assert(0 <= kw < k + 1 && {
            let p = line_pix(steep, x0, y0, x1, y1, kw);
            0 <= p.0 < w && 0 <= p.1 < h && i == p.1 * w + p.0
        });
    }
}

/// What one world-space line does to the colour buffer: nothing where an
/// endpoint fails the screen mapping; otherwise endpoints are truncated to
/// pixels, the steeper axis is made the major one, the walk runs from the
/// lower to the higher major coordinate, and every on-screen pixel it visits
/// takes the colour. Off-screen pixels are skipped, so a partially
/// off-screen line is partially drawn. The depth buffer is never touched.
pub open spec fn line_effect(
    colour_pre: Seq<Colour>, w: int, h: int, vp: MatS, p0: Vec3, p1: Vec3, col: Colour,
) -> Seq<Colour> {
    if !(p0.within(WORLD_LIMIT as int) && p1.within(WORLD_LIMIT as int)) {
        colour_pre
    } else {
    match (to_screen_s(vp, w, h, p0), to_screen_s(vp, w, h, p1)) {
        (Some(a), Some(b)) => {
            let ax = trunc_px(a.0);
            let ay = trunc_px(a.1);
            let bx = trunc_px(b.0);
            let by = trunc_px(b.1);
            let steep = iabs(ax - bx) < iabs(ay - by);
            let xa = if steep { ay } else { ax };
            let ya = if steep { ax } else { ay };
            let xb = if steep { by } else { bx };
            let yb = if steep { bx } else { by };
            let x0 = if xa > xb { xb } else { xa };
            let y0 = if xa > xb { yb } else { ya };
            let x1 = if xa > xb { xa } else { xb };
            let y1 = if xa > xb { ya } else { yb };
            Seq::new(colour_pre.len(), |i: int| {
                if line_covers_upto(steep, x0, y0, x1, y1, w, h, i, x1 - x0 + 1) {
                    col
                } else {
                    colour_pre[i]
                }
            })
        },
        _ => colour_pre,
    }
    }
}

/// The three screen points of a world triangle, or `None` where any vertex
/// fails the screen mapping.
pub open spec fn screen_tri(
    vp: MatS, w: int, h: int, p0: Vec3, p1: Vec3, p2: Vec3,
) -> Option<(Vec3, Vec3, Vec3)> {
    match (to_screen_s(vp, w, h, p0), to_screen_s(vp, w, h, p1), to_screen_s(vp, w, h, p2)) {
        (Some(t0), Some(t1), Some(t2)) => Some((
            Vec3 { x: t0.0 as i64, y: t0.1 as i64, z: t0.2 as i64 },
            Vec3 { x: t1.0 as i64, y: t1.1 as i64, z: t1.2 as i64 },
            Vec3 { x: t2.0 as i64, y: t2.1 as i64, z: t2.2 as i64 },
        )),
        _ => None,
    }
}

/// What one world-space triangle does to the two buffers: nothing at all
/// where a coordinate is out of the world's range, where the backface cull
/// discards it, where any vertex fails the screen mapping (at or behind the
/// eye plane, or beyond the coordinate range), or where the clamped bounding
/// box is degenerate; otherwise the per-pixel rasterization above.
pub open spec fn triangle_effect(
    colour_pre: Seq<Colour>, depth_pre: Seq<i64>, w: int, h: int,
    cam_pos: Vec3, vp: MatS, p0: Vec3, p1: Vec3, p2: Vec3, col: Colour,
) -> (Seq<Colour>, Seq<i64>) {
    if !(p0.within(WORLD_LIMIT as int) && p1.within(WORLD_LIMIT as int)
        && p2.within(WORLD_LIMIT as int)) {
        (colour_pre, depth_pre)
    } else if culled(cam_pos, p0, p1, p2) {
        (colour_pre, depth_pre)
    } else {
        match (to_screen_s(vp, w, h, p0), to_screen_s(vp, w, h, p1), to_screen_s(vp, w, h, p2)) {
            (Some(t0), Some(t1), Some(t2)) => {
                let q0 = Vec3 { x: t0.0 as i64, y: t0.1 as i64, z: t0.2 as i64 };
                let q1 = Vec3 { x: t1.0 as i64, y: t1.1 as i64, z: t1.2 as i64 };
                let q2 = Vec3 { x: t2.0 as i64, y: t2.1 as i64, z: t2.2 as i64 };
                if bb_degenerate(q0, q1, q2, w, h) {
                    (colour_pre, depth_pre)
                } else {
                    let shaded = shade(col, p0, p1, p2);
                    (raster_colour(colour_pre, depth_pre, q0, q1, q2, w, h, shaded),
                     raster_depth(depth_pre, q0, q1, q2, w, h))
                }
            },
            _ => (colour_pre, depth_pre),
        }
    }
}

} // verus!
