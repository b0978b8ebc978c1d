//! Q16.16 fixed-point scalars: an `i64` value `v` stands for the real number
//! `v / 65536`. Every product and quotient in the library rounds toward zero,
//! and the executable operations return `None` exactly where the mathematical
//! result leaves the `i64` range, so nothing here can overflow or panic.

use vstd::prelude::*;
use vstd::arithmetic::mul::lemma_mul_inequality;
use vstd::arithmetic::div_mod::lemma_div_is_ordered;

verus! {

/// One whole unit in the Q16.16 format.
pub const FX_ONE: i64 = 65536;

/// Absolute value over the mathematical integers.
pub open spec fn iabs(a: int) -> int {
    if a < 0 {
        -a
    } else {
        a
    }
}

/// Integer division rounded toward zero, made total: 0 when the divisor is 0.
pub open spec fn div_t(a: int, b: int) -> int {
    if b == 0 {
        0
    } else if (a < 0) == (b < 0) {
        iabs(a) / iabs(b)
    } else {
        -(iabs(a) / iabs(b))
    }
}

/// The Q16.16 product of `a` and `b`, rounded toward zero.
pub open spec fn fx_mul(a: int, b: int) -> int {
    div_t(a * b, FX_ONE as int)
}

/// The Q16.16 quotient of `a` by `b`, rounded toward zero.
pub open spec fn fx_div(a: int, b: int) -> int {
    div_t(a * (FX_ONE as int), b)
}

/// Whether a mathematical integer is representable as an `i64`.
pub open spec fn fits_i64(v: int) -> bool {
    i64::MIN <= v <= i64::MAX
}

/// The magnitude of a product is bounded by the product of the bounds.
pub proof fn lemma_abs_mul_bound(a: int, b: int, x: int, y: int)
    by (nonlinear_arith)
    requires
        iabs(a) <= x,
        iabs(b) <= y,
    ensures
        iabs(a * b) <= x * y,
{
}

/// Truncated division shrinks magnitudes: |a / b| <= |a| for |b| >= 1.
pub proof fn lemma_div_t_abs(a: int, b: int)
    requires
        b != 0,
    ensures
        iabs(div_t(a, b)) <= iabs(a),
        iabs(div_t(a, b)) == iabs(a) / iabs(b),
{
    lemma_mul_inequality(1, iabs(b), iabs(a));
    lemma_div_is_ordered(iabs(a), iabs(a) * iabs(b), iabs(b));
    assert(iabs(a) * iabs(b) / iabs(b) == iabs(a)) by (nonlinear_arith)
        requires iabs(b) > 0;
}

/// A bound on the dividend carries to the truncated quotient.
pub proof fn lemma_div_t_bound(a: int, b: int, m: int)
    requires
        b != 0,
        iabs(a) <= m * iabs(b),
        0 <= m,
    ensures
        iabs(div_t(a, b)) <= m,
{
    lemma_div_is_ordered(iabs(a), m * iabs(b), iabs(b));
    assert(m * iabs(b) / iabs(b) == m) by (nonlinear_arith)
        requires iabs(b) > 0;
}

/// Truncated division on `i128`, the machine counterpart of `div_t`.
pub fn idiv_t(a: i128, b: i128) -> (r: i128)
    requires
        b != 0,
        a != i128::MIN,
        b != i128::MIN,
    ensures
        r == div_t(a as int, b as int),
{
    let ua: u128 = if a < 0 { (-a) as u128 } else { a as u128 };
    let ub: u128 = if b < 0 { (-b) as u128 } else { b as u128 };
    let q: u128 = ua / ub;
    proof {
        assert(ua == iabs(a as int));
        assert(ub == iabs(b as int));
        lemma_div_t_abs(a as int, b as int);
    }
    if (a < 0) != (b < 0) {
        -(q as i128)
    } else {
        q as i128
    }
}

/// The Q16.16 product of two scalars, or `None` where the exact result
/// leaves the `i64` range.
pub fn fx_mul_c(a: i64, b: i64) -> (r: Option<i64>)
    ensures
        r is Some <==> fits_i64(fx_mul(a as int, b as int)),
        r is Some ==> r->0 == fx_mul(a as int, b as int),
{
    proof {
        lemma_abs_mul_bound(a as int, b as int, 0x8000_0000_0000_0000, 0x8000_0000_0000_0000);
    }
    let p: i128 = (a as i128) * (b as i128);
    let q: i128 = idiv_t(p, FX_ONE as i128);
    if q >= i64::MIN as i128 && q <= i64::MAX as i128 {
        Some(q as i64)
    } else {
        None
    }
}

/// The Q16.16 quotient of two scalars, or `None` where the divisor is zero
/// or the exact result leaves the `i64` range.
pub fn fx_div_c(a: i64, b: i64) -> (r: Option<i64>)
    ensures
        r is Some <==> b != 0 && fits_i64(fx_div(a as int, b as int)),
        r is Some ==> r->0 == fx_div(a as int, b as int),
{
    if b == 0 {
        return None;
    }
    proof {
        lemma_abs_mul_bound(a as int, FX_ONE as int, 0x8000_0000_0000_0000, 0x1_0000);
    }
    let p: i128 = (a as i128) * (FX_ONE as i128);
    let q: i128 = idiv_t(p, b as i128);
    if q >= i64::MIN as i128 && q <= i64::MAX as i128 {
        Some(q as i64)
    } else {
        None
    }
}

/// The lesser of two integers.
pub open spec fn imin(a: int, b: int) -> int {
    if a < b { a } else { b }
}

/// The greater of two integers.
pub open spec fn imax(a: int, b: int) -> int {
    if a < b { b } else { a }
}

/// The whole pixel at or below a Q16.16 coordinate: the floor of `v / 65536`,
/// which is the Euclidean quotient.
pub fn fx_floor(v: i64) -> (r: i64)
    ensures
        r == (v as int) / (FX_ONE as int),
{
    if v >= 0 {
        ((v as u64) / 65536u64) as i64
    } else {
        let u: u64 = (-(v as i128)) as u64;
        let q: u64 = (u / 65536) + (if u % 65536 == 0 { 0u64 } else { 1u64 });
        proof {
            vstd::arithmetic::div_mod::lemma_fundamental_div_mod(u as int, 65536);
            let qi = (u as int) / 65536;
            if u as int % 65536 == 0 {
                vstd::arithmetic::div_mod::lemma_fundamental_div_mod_converse(
                    v as int, 65536, -qi, 0);
            } else {
                assert(v as int == (-qi - 1) * 65536 + (65536 - (u as int) % 65536)) by (nonlinear_arith)
                    requires u as int == 65536 * qi + (u as int) % 65536, v as int == -(u as int);
                vstd::arithmetic::div_mod::lemma_fundamental_div_mod_converse(
                    v as int, 65536, -qi - 1, 65536 - (u as int) % 65536);
            }
        }
        -(q as i64)
    }
}

/// The whole pixel at or above a Q16.16 coordinate: the ceiling, as the
/// negated floor of the negated value.
pub fn fx_ceil(v: i64) -> (r: i64)
    requires
        v != i64::MIN,
    ensures
        r == -((-(v as int)) / (FX_ONE as int)),
{
    let f: i64 = fx_floor(-v);
    -f
}

/// What `clamp` returns: the nearer bound where `t` lies outside `[lo, hi]`.
pub open spec fn clamp_s(t: int, lo: int, hi: int) -> int {
    let raised = if t < lo { lo } else { t };
    if hi < raised {
        hi
    } else {
        raised
    }
}

/// The integer square root, rounded down, defined by recursion on `x`.
pub open spec fn sqrt_floor(x: nat) -> nat
    decreases x,
{
    if x == 0 {
        0
    } else {
        let p = sqrt_floor((x - 1) as nat);
        if (p + 1) * (p + 1) <= x {
            p + 1
        } else {
            p
        }
    }
}

/// `sqrt_floor` is the unique `r` with `r * r <= x < (r + 1) * (r + 1)`.
pub proof fn lemma_sqrt_floor(x: nat)
    ensures
        sqrt_floor(x) * sqrt_floor(x) <= x,
        x < (sqrt_floor(x) + 1) * (sqrt_floor(x) + 1),
    decreases x,
{
    if x > 0 {
        lemma_sqrt_floor((x - 1) as nat);
        let p = sqrt_floor((x - 1) as nat);
        if (p + 1) * (p + 1) <= x {
            assert(sqrt_floor(x) == p + 1);
            assert((p + 2) * (p + 2) > x) by (nonlinear_arith)
                requires x <= (p + 1) * (p + 1);
        } else {
            assert(sqrt_floor(x) == p);
        }
    } else {
        assert(sqrt_floor(x) == 0);
        assert((sqrt_floor(x) + 1) * (sqrt_floor(x) + 1) == 1) by (nonlinear_arith)
            requires sqrt_floor(x) == 0;
    }
}

/// Dividing an exact multiple is exact: `div_t(c * x, c) == x` for `c > 0`.
pub proof fn lemma_div_t_multiple(x: int, c: int)
    requires
        0 < c,
    ensures
        div_t(c * x, c) == x,
{
    assert(c * x == if x < 0 { -(c * (-x)) } else { c * x }) by (nonlinear_arith);
    if x < 0 {
        assert(iabs(c * x) == c * (-x)) by (nonlinear_arith)
            requires x < 0, 0 < c;
        vstd::arithmetic::div_mod::lemma_div_multiples_vanish(-x, c);
    } else {
        assert(iabs(c * x) == c * x) by (nonlinear_arith)
            requires x >= 0, 0 < c;
        vstd::arithmetic::div_mod::lemma_div_multiples_vanish(x, c);
    }
}

/// Any value whose square is at most `x` is at most `sqrt_floor(x)`.
pub proof fn lemma_sqrt_lower(x: nat, v: nat)
    requires
        v * v <= x,
    ensures
        v <= sqrt_floor(x),
{
    lemma_sqrt_floor(x);
    let m = sqrt_floor(x);
    if v > m {
        assert((m + 1) * (m + 1) <= v * v) by (nonlinear_arith)
            requires m + 1 <= v;
    }
}

/// The integer square root of a `u128`, by bisection.
pub fn isqrt(x: u128) -> (r: u128)
    ensures
        r == sqrt_floor(x as nat),
{
    let mut lo: u128 = 0;
    let mut hi: u128 = 1 << 64;
    proof {
        assert((1u128 << 64) == 0x1_0000_0000_0000_0000) by (bit_vector);
    }
    while hi - lo > 1
        invariant
            lo < hi <= 0x1_0000_0000_0000_0000,
            (lo as nat) * (lo as nat) <= x as nat,
            (x as nat) < (hi as nat) * (hi as nat),
        decreases hi - lo,
    {
        let mid: u128 = lo + (hi - lo) / 2;
        proof {
            assert((mid as nat) * (mid as nat) < 0x1_0000_0000_0000_0000_0000_0000_0000_0000) by (nonlinear_arith)
                requires mid < 0x1_0000_0000_0000_0000;
        }
        if mid * mid <= x {
            lo = mid;
        } else {
            hi = mid;
        }
    }
    proof {
        lemma_sqrt_floor(x as nat);
        let s = sqrt_floor(x as nat);
        assert(lo as nat <= s) by {
            if s < (lo as nat) {
                assert((s + 1) * (s + 1) <= (lo as nat) * (lo as nat)) by (nonlinear_arith)
                    requires s + 1 <= lo as nat;
            }
        }
        assert(s <= lo as nat) by {
            if (lo as nat) < s {
                assert((lo as nat + 1) * (lo as nat + 1) <= s * s) by (nonlinear_arith)
                    requires lo as nat + 1 <= s;
            }
        }
    }
    lo
}

} // verus!
