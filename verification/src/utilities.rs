//! Small free-standing helpers: clamping, a public barycentric-coordinate
//! computation, the frame-buffer repacking the presentation layer uses, and a
//! random flat colour.

use vstd::prelude::*;
use crate::colour::Colour;
use crate::fixed::{FX_ONE, iabs, div_t, clamp_s, fits_i64, idiv_t, lemma_abs_mul_bound};
use crate::mat4::COORD_LIMIT;
use crate::raster::{area2, lam0, lam1, lam2};
use crate::vec3::Vec3;

verus! {

/// Clamps `t` into `[lo, hi]` (the upper bound wins where `lo > hi`).
pub fn clamp(t: i64, lo: i64, hi: i64) -> (r: i64)
    ensures
        r == clamp_s(t as int, lo as int, hi as int),
{
    let raised: i64 = if t < lo { lo } else { t };
    if hi < raised {
        hi
    } else {
        raised
    }
}

/// The Q16.16 barycentric coordinates of `p` with respect to the screen
/// triangle `(p0, p1, p2)`: each weight is its exact numerator scaled by
/// 65536 and divided by twice the signed area, rounded toward zero. `None`
/// exactly for a degenerate (zero-area) triangle or where a weight leaves
/// the `i64` range.
pub open spec fn barycentric_s(p0: Vec3, p1: Vec3, p2: Vec3, p: Vec3) -> Option<(int, int, int)> {
    let a = area2(p0, p1, p2);
    if a == 0 {
        None
    } else {
        let u = div_t(lam0(p0, p1, p2, p.x as int, p.y as int) * (FX_ONE as int), a);
        let v = div_t(lam1(p0, p1, p2, p.x as int, p.y as int) * (FX_ONE as int), a);
        let w = div_t(lam2(p0, p1, p2, p.x as int, p.y as int) * (FX_ONE as int), a);
        if fits_i64(u) && fits_i64(v) && fits_i64(w) {
            Some((u, v, w))
        } else {
            None
        }
    }
}

/// The barycentric coordinates of `p`, as `barycentric_s` gives them, with
/// the weights of `p0`, `p1` and `p2` in the result's x, y and z.
pub fn barycentric(p0: Vec3, p1: Vec3, p2: Vec3, p: Vec3) -> (r: Option<Vec3>)
    requires
        p0.within(COORD_LIMIT as int),
        p1.within(COORD_LIMIT as int),
        p2.within(COORD_LIMIT as int),
        p.within(COORD_LIMIT as int),
    ensures
        match r {
            Some(b) => barycentric_s(p0, p1, p2, p) == Some((b.x as int, b.y as int, b.z as int)),
            None => barycentric_s(p0, p1, p2, p) is None,
        },
{
    let a: i128 = edge_raw(p0.x, p0.y, p1.x, p1.y, p2.x, p2.y);
    if a == 0 {
        return None;
    }
    let l0: i128 = edge_raw(p1.x, p1.y, p2.x, p2.y, p.x, p.y);
    let l1: i128 = edge_raw(p2.x, p2.y, p0.x, p0.y, p.x, p.y);
    let l2: i128 = edge_raw(p0.x, p0.y, p1.x, p1.y, p.x, p.y);
    proof {
        lemma_abs_mul_bound(l0 as int, FX_ONE as int, 0x8000_0000_0000_0000_0000, 0x1_0000);
        lemma_abs_mul_bound(l1 as int, FX_ONE as int, 0x8000_0000_0000_0000_0000, 0x1_0000);
        lemma_abs_mul_bound(l2 as int, FX_ONE as int, 0x8000_0000_0000_0000_0000, 0x1_0000);
    }
    let u: i128 = idiv_t(l0 * (FX_ONE as i128), a);
    let v: i128 = idiv_t(l1 * (FX_ONE as i128), a);
    let w: i128 = idiv_t(l2 * (FX_ONE as i128), a);
    let lo: i128 = i64::MIN as i128;
    let hi: i128 = i64::MAX as i128;
    if lo <= u && u <= hi && lo <= v && v <= hi && lo <= w && w <= hi {
        Some(Vec3 { x: u as i64, y: v as i64, z: w as i64 })
    } else {
        None
    }
}

/// The edge function `cross(b - a, p - a)`, exact in `i128`.
fn edge_raw(ax: i64, ay: i64, bx: i64, by: i64, px: i64, py: i64) -> (r: i128)
    requires
        iabs(ax as int) <= COORD_LIMIT as int, iabs(ay as int) <= COORD_LIMIT as int,
        iabs(bx as int) <= COORD_LIMIT as int, iabs(by as int) <= COORD_LIMIT as int,
        iabs(px as int) <= COORD_LIMIT as int, iabs(py as int) <= COORD_LIMIT as int,
    ensures
        r == ((bx as int) - (ax as int)) * ((py as int) - (ay as int))
            - ((by as int) - (ay as int)) * ((px as int) - (ax as int)),
        iabs(r as int) <= 0x8000_0000_0000_0000_0000,
{
    proof {
        lemma_abs_mul_bound((bx as int) - (ax as int), (py as int) - (ay as int),
            0x20_0000_0000, 0x20_0000_0000);
        lemma_abs_mul_bound((by as int) - (ay as int), (px as int) - (ax as int),
            0x20_0000_0000, 0x20_0000_0000);
    }
    ((bx as i128) - (ax as i128)) * ((py as i128) - (ay as i128))
        - ((by as i128) - (ay as i128)) * ((px as i128) - (ax as i128))
}

/// One presentation pixel: the four colour bytes packed as `0xAARRGGBB`.
pub open spec fn pack_px(r: u8, g: u8, b: u8, a: u8) -> u32 {
    ((a as int) * 0x100_0000 + (r as int) * 0x1_0000 + (g as int) * 0x100 + (b as int)) as u32
}

/// Repacks a row-major RGBA byte buffer into one `0xAARRGGBB` word per
/// pixel, as a presentation surface takes it.
pub fn frame_copy(src: &Vec<u8>, dst: &mut Vec<u32>)
    requires
        src@.len() >= 4 * old(dst)@.len(),
    ensures
        final(dst)@.len() == old(dst)@.len(),
        forall|i: int| 0 <= i < old(dst)@.len() ==> final(dst)@[i]
            == pack_px(src@[4 * i], src@[4 * i + 1], src@[4 * i + 2], src@[4 * i + 3]),
{
    let n: usize = dst.len();
    let sl: usize = src.len();
    let mut k: usize = 0;
    while k < n
        invariant
            k <= n,
            n == dst@.len(),
            sl == src@.len(),
            src@.len() >= 4 * n,
            forall|i: int| 0 <= i < k ==> dst@[i]
                == pack_px(src@[4 * i], src@[4 * i + 1], src@[4 * i + 2], src@[4 * i + 3]),
        decreases n - k,
    {
        let r = src[4 * k];
        let g = src[4 * k + 1];
        let b = src[4 * k + 2];
        let a = src[4 * k + 3];
        proof {
            assert(((a as u32) << 24) == (a as u32) * 0x100_0000
                && ((r as u32) << 16) == (r as u32) * 0x1_0000
                && ((g as u32) << 8) == (g as u32) * 0x100) by (bit_vector);
        }
        let px: u32 = ((a as u32) << 24) + ((r as u32) << 16) + ((g as u32) << 8) + (b as u32);
        dst.set(k, px);
        k = k + 1;
    }
}

/// Relies on rand::random: one byte from the thread-local generator; nothing
/// is promised of its value.
#[verifier::external_body]
fn random_byte() -> u8 {
    rand::random::<u8>()
}

/// An opaque colour with random red, green and blue channels; only the full
/// alpha is determined.
pub fn random_colour() -> (c: Colour)
    ensures
        c.a == 255u8,
{
    let r = random_byte();
    let g = random_byte();
    let b = random_byte();
    Colour { r, g, b, a: 255 }
}

} // verus!
