//! Sine and cosine over Q16.16 angles in radians. Each function reduces its
//! angle into `(-pi, pi]` and evaluates a truncated Taylor polynomial in
//! Horner form; the contract states that polynomial exactly, clamped into
//! `[-1, 1]`. Every intermediate Horner value is clamped into
//! `[-W_CLAMP, W_CLAMP]`, a bound far outside the polynomial's actual range
//! on the reduced interval, kept so each step's magnitude is evident. The
//! polynomial approximates the analytic function to within a few thousandths,
//! which is ample for shading and camera work.

use vstd::prelude::*;
use crate::fixed::{FX_ONE, iabs, div_t, fx_mul, clamp_s, idiv_t, lemma_abs_mul_bound, lemma_div_t_abs};
use vstd::arithmetic::div_mod::{lemma_fundamental_div_mod, lemma_fundamental_div_mod_converse};

verus! {

/// Pi in Q16.16.
pub const PI_FX: i64 = 205887;

/// Two pi in Q16.16.
pub const TWO_PI_FX: i64 = 411775;

/// Clamp bound (16.0 in Q16.16) on intermediate Horner values.
pub const W_CLAMP: i64 = 0x10_0000;

/// The Euclidean remainder of `a` modulo `m`, always in `[0, m)`.
pub fn imod_e(a: i64, m: i64) -> (r: i64)
    requires
        0 < m,
    ensures
        r == (a as int) % (m as int),
        0 <= r < m,
{
    let mu: u64 = m as u64;
    if a >= 0 {
        ((a as u64) % mu) as i64
    } else {
        let ua: u64 = (-(a as i128)) as u64;
        let um: u64 = ua % mu;
        let ghost q: int = (ua as int) / (m as int);
        proof {
            lemma_fundamental_div_mod(ua as int, m as int);
        }
        if um == 0 {
            proof {
                assert(a as int == (-q) * (m as int) + 0) by (nonlinear_arith)
                    requires
                        ua as int == (m as int) * q + um,
                        a as int == -(ua as int),
                        um == 0;
                lemma_fundamental_div_mod_converse(a as int, m as int, -q, 0);
            }
            0
        } else {
            proof {
                assert(a as int == (-q - 1) * (m as int) + ((m - um) as int)) by (nonlinear_arith)
                    requires
                        ua as int == (m as int) * q + um,
                        a as int == -(ua as int);
                lemma_fundamental_div_mod_converse(a as int, m as int, -q - 1, m - um);
            }
            m - (um as i64)
        }
    }
}

/// The angle shifted by whole turns into `(-pi, pi]`.
pub open spec fn wrap_pi(a: int) -> int {
    let r0 = a % (TWO_PI_FX as int);
    if r0 > PI_FX as int {
        r0 - TWO_PI_FX as int
    } else {
        r0
    }
}

/// One Horner step `1 - (t * w) / k`, clamped into `[-W_CLAMP, W_CLAMP]`.
pub open spec fn horner_s(t: int, w: int, k: int) -> int {
    clamp_s(FX_ONE as int - div_t(fx_mul(t, w), k), -(W_CLAMP as int), W_CLAMP as int)
}

/// The truncated Taylor polynomial for the sine of a reduced angle:
/// `x * (1 - t/6 * (1 - t/20 * (1 - t/42 * (1 - t/72))))` with `t = x * x`,
/// every step a Q16.16 truncation.
pub open spec fn sin_poly(x: int) -> int {
    let t = fx_mul(x, x);
    let w4 = horner_s(t, FX_ONE as int, 72);
    let w3 = horner_s(t, w4, 42);
    let w2 = horner_s(t, w3, 20);
    let w1 = horner_s(t, w2, 6);
    fx_mul(x, w1)
}

/// The truncated Taylor polynomial for the cosine of a reduced angle:
/// `1 - t/2 * (1 - t/12 * (1 - t/30 * (1 - t/56)))` with `t = x * x`.
pub open spec fn cos_poly(x: int) -> int {
    let t = fx_mul(x, x);
    let w4 = horner_s(t, FX_ONE as int, 56);
    let w3 = horner_s(t, w4, 30);
    let w2 = horner_s(t, w3, 12);
    horner_s(t, w2, 2)
}

/// What `sin_fx` returns.
pub open spec fn sin_s(a: int) -> int {
    clamp_s(sin_poly(wrap_pi(a)), -(FX_ONE as int), FX_ONE as int)
}

/// What `cos_fx` returns.
pub open spec fn cos_s(a: int) -> int {
    clamp_s(cos_poly(wrap_pi(a)), -(FX_ONE as int), FX_ONE as int)
}

/// Reduces an angle into `(-pi, pi]`.
fn wrap_angle(a: i64) -> (r: i64)
    ensures
        r == wrap_pi(a as int),
        iabs(r as int) <= PI_FX as int,
{
    let r0: i64 = imod_e(a, TWO_PI_FX);
    if r0 > PI_FX {
        r0 - TWO_PI_FX
    } else {
        r0
    }
}

/// One executable Horner step.
fn horner_step(t: i64, w: i64, k: i64) -> (r: i64)
    requires
        0 < k <= 100,
        iabs(t as int) <= 0x1_0000_0000,
        iabs(w as int) <= W_CLAMP as int,
    ensures
        r == horner_s(t as int, w as int, k as int),
        iabs(r as int) <= W_CLAMP as int,
{
    proof {
        lemma_abs_mul_bound(t as int, w as int, 0x1_0000_0000, W_CLAMP as int);
        lemma_div_t_abs((t as int) * (w as int), FX_ONE as int);
        lemma_div_t_abs(fx_mul(t as int, w as int), k as int);
    }
    let p: i128 = idiv_t((t as i128) * (w as i128), FX_ONE as i128);
    let d: i128 = idiv_t(p, k as i128);
    let raw: i128 = (FX_ONE as i128) - d;
    let lo: i128 = -(W_CLAMP as i128);
    let hi: i128 = W_CLAMP as i128;
    let c: i128 = if raw < lo { lo } else { raw };
    let c2: i128 = if hi < c { hi } else { c };
    c2 as i64
}

/// The square of the reduced angle, in Q16.16.
fn angle_sq(x: i64) -> (t: i64)
    requires
        iabs(x as int) <= PI_FX as int,
    ensures
        t == fx_mul(x as int, x as int),
        iabs(t as int) <= 0x1_0000_0000,
{
    proof {
        lemma_abs_mul_bound(x as int, x as int, PI_FX as int, PI_FX as int);
        lemma_div_t_abs((x as int) * (x as int), FX_ONE as int);
        crate::fixed::lemma_div_t_bound((x as int) * (x as int), FX_ONE as int, 0x1_0000_0000);
    }
    let t: i128 = idiv_t((x as i128) * (x as i128), FX_ONE as i128);
    t as i64
}

/// The sine of a Q16.16 angle in radians.
pub fn sin_fx(a: i64) -> (r: i64)
    ensures
        r == sin_s(a as int),
        iabs(r as int) <= FX_ONE as int,
{
    let x: i64 = wrap_angle(a);
    let t: i64 = angle_sq(x);
    let w4: i64 = horner_step(t, FX_ONE, 72);
    let w3: i64 = horner_step(t, w4, 42);
    let w2: i64 = horner_step(t, w3, 20);
    let w1: i64 = horner_step(t, w2, 6);
    proof {
        lemma_abs_mul_bound(x as int, w1 as int, PI_FX as int, W_CLAMP as int);
        lemma_div_t_abs((x as int) * (w1 as int), FX_ONE as int);
    }
    let p: i128 = idiv_t((x as i128) * (w1 as i128), FX_ONE as i128);
    let lo: i128 = -(FX_ONE as i128);
    let hi: i128 = FX_ONE as i128;
    let c: i128 = if p < lo { lo } else { p };
    let c2: i128 = if hi < c { hi } else { c };
    c2 as i64
}

/// The cosine of a Q16.16 angle in radians.
pub fn cos_fx(a: i64) -> (r: i64)
    ensures
        r == cos_s(a as int),
        iabs(r as int) <= FX_ONE as int,
{
    let x: i64 = wrap_angle(a);
    let t: i64 = angle_sq(x);
    let w4: i64 = horner_step(t, FX_ONE, 56);
    let w3: i64 = horner_step(t, w4, 30);
    let w2: i64 = horner_step(t, w3, 12);
    let w1: i64 = horner_step(t, w2, 2);
    let lo: i64 = -FX_ONE;
    let hi: i64 = FX_ONE;
    let c: i64 = if w1 < lo { lo } else { w1 };
    let c2: i64 = if hi < c { hi } else { c };
    c2
}

} // verus!
