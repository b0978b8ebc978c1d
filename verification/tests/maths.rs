use minidraw::colour::Colour;
use minidraw::fixed::{fx_mul_c, fx_div_c, fx_floor, fx_ceil, isqrt, idiv_t, FX_ONE};
use minidraw::trig::{sin_fx, cos_fx, imod_e, PI_FX, TWO_PI_FX};
use minidraw::utilities::{clamp, frame_copy, random_colour, barycentric};
use minidraw::vec3::Vec3;

#[test]
fn clamp_returns_value_or_nearer_bound() {
    assert_eq!(clamp(5, 0, 10), 5);
    assert_eq!(clamp(-3, 0, 10), 0);
    assert_eq!(clamp(99, 0, 10), 10);
    assert_eq!(clamp(i64::MIN, -1, 1), -1);
}

#[test]
fn fixed_products_and_quotients_are_exact() {
    // 2.0 * 1.5 == 3.0 and 1.0 / 2.0 == 0.5 in Q16.16.
    assert_eq!(fx_mul_c(131072, 98304), Some(196608));
    assert_eq!(fx_div_c(65536, 131072), Some(32768));
    // Truncation is toward zero on either sign.
    assert_eq!(fx_mul_c(-3, 1), Some(0));
    assert_eq!(fx_mul_c(-65536, 3), Some(-3));
    // An overflowing product is refused, never wrapped.
    assert_eq!(fx_mul_c(i64::MAX, i64::MAX), None);
    assert_eq!(fx_div_c(1, 0), None);
}

#[test]
fn truncated_division_rounds_toward_zero() {
    assert_eq!(idiv_t(7, 2), 3);
    assert_eq!(idiv_t(-7, 2), -3);
    assert_eq!(idiv_t(7, -2), -3);
    assert_eq!(idiv_t(-7, -2), 3);
}

#[test]
fn floor_and_ceiling_of_fixed_coordinates() {
    assert_eq!(fx_floor(0), 0);
    assert_eq!(fx_floor(65536), 1);
    assert_eq!(fx_floor(65535), 0);
    assert_eq!(fx_floor(-1), -1);
    assert_eq!(fx_floor(-65536), -1);
    assert_eq!(fx_floor(-65537), -2);
    assert_eq!(fx_ceil(0), 0);
    assert_eq!(fx_ceil(1), 1);
    assert_eq!(fx_ceil(65536), 1);
    assert_eq!(fx_ceil(-1), 0);
    assert_eq!(fx_ceil(-65537), -1);
}

#[test]
fn integer_square_roots_are_floors() {
    assert_eq!(isqrt(0), 0);
    assert_eq!(isqrt(1), 1);
    assert_eq!(isqrt(15), 3);
    assert_eq!(isqrt(16), 4);
    assert_eq!(isqrt(1 << 100), 1 << 50);
    assert_eq!(isqrt((1 << 100) - 1), (1 << 50) - 1);
}

#[test]
fn euclidean_remainder_is_always_nonnegative() {
    assert_eq!(imod_e(7, 3), 1);
    assert_eq!(imod_e(-7, 3), 2);
    assert_eq!(imod_e(-6, 3), 0);
    assert_eq!(imod_e(0, TWO_PI_FX), 0);
}

#[test]
fn sine_and_cosine_match_the_analytic_values_closely() {
    assert_eq!(sin_fx(0), 0);
    assert_eq!(cos_fx(0), FX_ONE);
    let half_pi = 102944;
    assert!((sin_fx(half_pi) - FX_ONE).abs() <= 40);
    assert!(cos_fx(half_pi).abs() <= 40);
    // At the far end of the reduced range the truncated series drifts by a
    // few percent; the contract pins the polynomial, not the analytic value.
    assert!((cos_fx(PI_FX) + FX_ONE).abs() <= 2000);
    assert!(sin_fx(PI_FX).abs() <= 6000);
    // A quarter turn: sin(pi/6) = 0.5 within tolerance.
    let sixth_pi = PI_FX / 6;
    assert!((sin_fx(sixth_pi) - 32768).abs() <= 20);
}

#[test]
fn sine_is_periodic_in_whole_turns_exactly() {
    for a in [0i64, 100, -50000, 1234567] {
        assert_eq!(sin_fx(a), sin_fx(a + TWO_PI_FX));
        assert_eq!(cos_fx(a), cos_fx(a - TWO_PI_FX));
    }
}

#[test]
fn frame_copy_packs_pixels_as_argb_words() {
    let src: Vec<u8> = vec![1, 2, 3, 4, 250, 251, 252, 253];
    let mut dst: Vec<u32> = vec![0, 0];
    frame_copy(&src, &mut dst);
    assert_eq!(dst[0], (4u32 << 24) + (1u32 << 16) + (2u32 << 8) + 3);
    assert_eq!(dst[1], (253u32 << 24) + (250u32 << 16) + (251u32 << 8) + 252);
}

#[test]
fn random_colour_is_opaque() {
    for _ in 0..8 {
        assert_eq!(random_colour().a, 255);
    }
}

#[test]
fn colour_constructors_fix_every_channel() {
    let c = Colour::new(1, 2, 3, 4);
    assert_eq!((c.r, c.g, c.b, c.a), (1, 2, 3, 4));
    assert_eq!(Colour::white(), Colour::new(255, 255, 255, 255));
    assert_eq!(Colour::black(), Colour::new(0, 0, 0, 255));
}

#[test]
fn barycentric_weights_of_an_interior_point() {
    // Triangle (0,0), (10,0), (0,10) and the point (2.5, 2.5): the exact
    // weights are (0.5, 0.25, 0.25).
    let p0 = Vec3::new(0, 0, 0);
    let p1 = Vec3::new(10 * FX_ONE, 0, 0);
    let p2 = Vec3::new(0, 10 * FX_ONE, 0);
    let p = Vec3::new(5 * FX_ONE / 2, 5 * FX_ONE / 2, 0);
    let b = barycentric(p0, p1, p2, p).unwrap();
    assert_eq!((b.x, b.y, b.z), (32768, 16384, 16384));
}

#[test]
fn barycentric_of_a_degenerate_triangle_is_refused() {
    let p0 = Vec3::new(0, 0, 0);
    let p1 = Vec3::new(FX_ONE, FX_ONE, 0);
    let p2 = Vec3::new(2 * FX_ONE, 2 * FX_ONE, 0);
    assert!(barycentric(p0, p1, p2, Vec3::new(1, 2, 0)).is_none());
}
