//! The fixed-point scalar: exact arithmetic, saturation, square roots and
//! the turn trigonometry.

use raytrace::fixed::Real;
use raytrace::fixed::RAW_MAX;
use raytrace::fixed::RAW_MIN;
use raytrace::fixed::SCALE;

#[test]
fn add_and_sub_are_exact_in_range() {
    let a = Real::from_int(3);
    let b = Real::from_int(4);
    assert_eq!(a.add(b).raw, 7 * SCALE);
    assert_eq!(a.sub(b).raw, -SCALE);
}

#[test]
fn add_saturates_at_the_range_ends() {
    let top = Real { raw: RAW_MAX };
    assert_eq!(top.add(top).raw, RAW_MAX);
    let bottom = Real { raw: RAW_MIN };
    assert_eq!(bottom.add(bottom).raw, RAW_MIN);
}

#[test]
fn mul_rounds_toward_zero() {
    // 1.5 * 2.5 = 3.75 exactly representable
    let a = Real { raw: SCALE + SCALE / 2 };
    let b = Real { raw: 2 * SCALE + SCALE / 2 };
    assert_eq!(a.mul(b).raw, 3 * SCALE + 3 * (SCALE / 4));
    // (-1/SCALE) * (1/2) rounds toward zero, not downward
    let tiny = Real { raw: -1 };
    let half = Real { raw: SCALE / 2 };
    assert_eq!(tiny.mul(half).raw, 0);
}

#[test]
fn div_matches_truncation() {
    let seven = Real::from_int(7);
    let two = Real::from_int(2);
    assert_eq!(seven.div(two).raw, 3 * SCALE + SCALE / 2);
    let neg = Real::from_int(-7);
    assert_eq!(neg.div(two).raw, -(3 * SCALE + SCALE / 2));
}

#[test]
fn sqrt_is_exact_on_perfect_squares() {
    assert_eq!(Real::from_int(4).sqrt().raw, 2 * SCALE);
    assert_eq!(Real::from_int(1).sqrt().raw, SCALE);
    assert_eq!(Real::from_int(0).sqrt().raw, 0);
    // a negative channel has no real root and maps to zero
    assert_eq!(Real::from_int(-9).sqrt().raw, 0);
    // sqrt(1/4) = 1/2
    assert_eq!(Real { raw: SCALE / 4 }.sqrt().raw, SCALE / 2);
}

#[test]
fn min_max_abs() {
    let a = Real::from_int(-2);
    let b = Real::from_int(5);
    assert_eq!(a.min(b).raw, a.raw);
    assert_eq!(a.max(b).raw, b.raw);
    assert_eq!(a.abs().raw, 2 * SCALE);
    assert_eq!(Real { raw: i64::MIN }.neg().raw, RAW_MAX);
}

#[test]
fn trig_hits_the_cardinal_points_exactly() {
    // cos 0 = 1, sin 0 = 0
    assert_eq!(Real { raw: 0 }.cos_turn().raw, SCALE);
    assert_eq!(Real { raw: 0 }.sin_turn().raw, 0);
    // a quarter turn: sin = 1 exactly (the reduced phase is zero)
    assert_eq!(Real { raw: SCALE / 4 }.sin_turn().raw, SCALE);
    // a half turn: cos = -1 exactly
    assert_eq!(Real { raw: SCALE / 2 }.cos_turn().raw, -SCALE);
    // three quarters: sin = -1 exactly
    assert_eq!(Real { raw: 3 * (SCALE / 4) }.sin_turn().raw, -SCALE);
}

#[test]
fn trig_approximates_interior_angles() {
    // an eighth of a turn is 45 degrees: sin = cos = sqrt(1/2), tan = 1
    let u = Real { raw: SCALE / 8 };
    let s = u.sin_turn().raw;
    let c = u.cos_turn().raw;
    let root_half = 741455; // sqrt(1/2) in raw units
    assert!((s - root_half).abs() < 2000, "sin off by {}", s - root_half);
    assert!((c - root_half).abs() < 2000, "cos off by {}", c - root_half);
    let t = u.tan_turn().raw;
    assert!((t - SCALE).abs() < 4000, "tan off by {}", t - SCALE);
}

#[test]
fn trig_stays_clamped() {
    let mut u: i64 = 0;
    while u < SCALE {
        let c = Real { raw: u }.cos_turn().raw;
        let s = Real { raw: u }.sin_turn().raw;
        assert!(-SCALE <= c && c <= SCALE);
        assert!(-SCALE <= s && s <= SCALE);
        u += SCALE / 64;
    }
}
