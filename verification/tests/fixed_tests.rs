use soft_raster::fixed::{div_floor, div_floor_signed, isqrt, saturate_i128, wide_product, Fixed};
use soft_raster::fixed::{FULL_TURN_RAW, HALF_TURN_RAW, ONE_RAW, QUARTER_TURN_RAW};

fn fx(v: f64) -> Fixed {
    Fixed::from_raw((v * 65536.0).round() as i32)
}

fn as_f64(v: Fixed) -> f64 {
    v.raw as f64 / 65536.0
}

#[test]
fn from_int_scales_by_one() {
    assert_eq!(Fixed::from_int(3).raw, 3 * ONE_RAW);
    assert_eq!(Fixed::from_int(-7).raw, -7 * 65536);
    assert_eq!(Fixed::from_int(0), Fixed::zero());
    assert_eq!(Fixed::from_int(1), Fixed::one());
}

#[test]
fn from_int_saturates() {
    assert_eq!(Fixed::from_int(40000).raw, i32::MAX);
    assert_eq!(Fixed::from_int(-40000).raw, i32::MIN);
    assert_eq!(Fixed::from_int(32767).raw, 32767 * 65536);
    assert_eq!(Fixed::from_int(-32768).raw, i32::MIN);
}

#[test]
fn add_and_sub_saturate() {
    assert_eq!(fx(1.5).add(fx(2.25)), fx(3.75));
    assert_eq!(fx(1.5).sub(fx(2.25)), fx(-0.75));
    assert_eq!(Fixed::from_int(32767).add(Fixed::from_int(32767)).raw, i32::MAX);
    assert_eq!(Fixed::from_int(-32767).sub(Fixed::from_int(32767)).raw, i32::MIN);
    assert_eq!(Fixed::max_value().add(Fixed::from_raw(1)), Fixed::max_value());
}

#[test]
fn neg_and_abs() {
    assert_eq!(fx(2.5).neg(), fx(-2.5));
    assert_eq!(fx(-2.5).abs(), fx(2.5));
    assert_eq!(fx(2.5).abs(), fx(2.5));
    assert_eq!(Fixed::from_raw(i32::MIN).neg().raw, i32::MAX);
    assert_eq!(Fixed::from_raw(i32::MIN).abs().raw, i32::MAX);
}

#[test]
fn mul_rounds_down() {
    assert_eq!(Fixed::from_int(3).mul(Fixed::from_raw(32768)).raw, 98304);
    assert_eq!(fx(-1.5).mul(fx(2.0)), fx(-3.0));
    assert_eq!(Fixed::from_raw(1).mul(Fixed::from_raw(1)).raw, 0);
    assert_eq!(Fixed::from_raw(-1).mul(Fixed::from_raw(1)).raw, -1);
    assert_eq!(Fixed::from_int(200).mul(Fixed::from_int(200)).raw, i32::MAX);
    assert_eq!(Fixed::from_int(200).mul(Fixed::from_int(-200)).raw, i32::MIN);
}

#[test]
fn div_rounds_down() {
    assert_eq!(Fixed::from_int(1).div(Fixed::from_int(3)).raw, 21845);
    assert_eq!(Fixed::from_int(-1).div(Fixed::from_int(3)).raw, -21846);
    assert_eq!(Fixed::from_int(1).div(Fixed::from_int(-3)).raw, -21846);
    assert_eq!(Fixed::from_int(-1).div(Fixed::from_int(-3)).raw, 21845);
    assert_eq!(fx(7.5).div(fx(2.5)), fx(3.0));
    assert_eq!(Fixed::from_ratio(7, 10).raw, 45875);
}

#[test]
fn div_by_zero_saturates_by_sign() {
    assert_eq!(Fixed::from_int(5).div(Fixed::zero()).raw, i32::MAX);
    assert_eq!(Fixed::from_int(-5).div(Fixed::zero()).raw, i32::MIN);
    assert_eq!(Fixed::zero().div(Fixed::zero()).raw, 0);
}

#[test]
fn div_saturates() {
    assert_eq!(Fixed::from_int(30000).div(Fixed::from_raw(1)).raw, i32::MAX);
    assert_eq!(Fixed::from_int(-30000).div(Fixed::from_raw(1)).raw, i32::MIN);
}

#[test]
fn min_and_max() {
    assert_eq!(fx(1.0).min(fx(2.0)), fx(1.0));
    assert_eq!(fx(1.0).max(fx(2.0)), fx(2.0));
    assert_eq!(fx(-1.0).min(fx(-2.0)), fx(-2.0));
    assert_eq!(fx(-1.0).max(fx(0.0)), fx(0.0));
}

#[test]
fn floor_and_ceil() {
    assert_eq!(Fixed::from_raw(98304).floor(), 1);
    assert_eq!(Fixed::from_raw(98304).ceil(), 2);
    assert_eq!(Fixed::from_raw(-98304).floor(), -2);
    assert_eq!(Fixed::from_raw(-98304).ceil(), -1);
    assert_eq!(Fixed::from_int(7).floor(), 7);
    assert_eq!(Fixed::from_int(7).ceil(), 7);
    assert_eq!(Fixed::from_raw(i32::MAX).ceil(), 32768);
    assert_eq!(Fixed::from_raw(i32::MAX).floor(), 32767);
    assert_eq!(Fixed::from_raw(i32::MIN).floor(), -32768);
    assert_eq!(Fixed::from_raw(-1).floor(), -1);
    assert_eq!(Fixed::from_raw(-1).ceil(), 0);
    assert_eq!(Fixed::from_raw(1).ceil(), 1);
}

#[test]
fn sqrt_rounds_down() {
    assert_eq!(Fixed::from_int(4).sqrt().raw, 131072);
    assert_eq!(Fixed::from_int(2).sqrt().raw, 92681);
    assert_eq!(Fixed::from_int(0).sqrt().raw, 0);
    assert_eq!(Fixed::from_int(-4).sqrt().raw, 0);
    assert_eq!(fx(0.25).sqrt(), fx(0.5));
}

#[test]
fn isqrt_is_the_floor_of_the_root() {
    assert_eq!(isqrt(0), 0);
    assert_eq!(isqrt(1), 1);
    assert_eq!(isqrt(3), 1);
    assert_eq!(isqrt(4), 2);
    assert_eq!(isqrt(99), 9);
    assert_eq!(isqrt(100), 10);
    assert_eq!(isqrt(u64::MAX), 0xffff_ffff);
    for n in 0u64..2000 {
        let r = isqrt(n);
        assert!(r * r <= n && n < (r + 1) * (r + 1));
    }
}

#[test]
fn sine_at_the_quarter_turns() {
    assert_eq!(Fixed::from_raw(0).sin().raw, 0);
    assert_eq!(Fixed::from_raw(QUARTER_TURN_RAW).sin().raw, 65536);
    assert_eq!(Fixed::from_raw(HALF_TURN_RAW).sin().raw, 0);
    assert_eq!(Fixed::from_raw(3 * QUARTER_TURN_RAW).sin().raw, -65536);
    assert_eq!(Fixed::from_raw(FULL_TURN_RAW).sin().raw, 0);
    assert_eq!(Fixed::from_raw(-QUARTER_TURN_RAW).sin().raw, -65536);
}

#[test]
fn cosine_at_the_quarter_turns() {
    assert_eq!(Fixed::from_raw(0).cos().raw, 65536);
    assert_eq!(Fixed::from_raw(QUARTER_TURN_RAW).cos().raw, 0);
    assert_eq!(Fixed::from_raw(HALF_TURN_RAW).cos().raw, -65536);
    assert_eq!(Fixed::from_raw(-QUARTER_TURN_RAW).cos().raw, 0);
}

#[test]
fn sine_is_close_to_the_real_sine() {
    let mut raw: i32 = -1_000_000;
    while raw < 1_000_000 {
        let x = Fixed::from_raw(raw);
        let s = as_f64(x.sin());
        let c = as_f64(x.cos());
        assert!((s - as_f64(x).sin()).abs() < 0.002, "sin at {}", raw);
        assert!((c - as_f64(x).cos()).abs() < 0.002, "cos at {}", raw);
        assert!(x.sin().raw.abs() <= 65536);
        raw += 997;
    }
}

#[test]
fn sine_has_the_period_of_a_full_turn() {
    let mut raw: i32 = -500_000;
    while raw < 500_000 {
        assert_eq!(Fixed::from_raw(raw).sin(), Fixed::from_raw(raw + FULL_TURN_RAW).sin());
        raw += 1013;
    }
}

#[test]
fn sine_at_the_ends_of_the_range() {
    assert!(Fixed::from_raw(i32::MAX).sin().raw.abs() <= 65536);
    assert!(Fixed::from_raw(i32::MIN).sin().raw.abs() <= 65536);
    assert!(Fixed::from_raw(i32::MAX).cos().raw.abs() <= 65536);
    assert!(Fixed::from_raw(i32::MIN).cos().raw.abs() <= 65536);
}

#[test]
fn floor_division_helpers() {
    assert_eq!(div_floor(7, 2), 3);
    assert_eq!(div_floor(-7, 2), -4);
    assert_eq!(div_floor(-8, 2), -4);
    assert_eq!(div_floor(-1, 65536), -1);
    assert_eq!(div_floor(0, 5), 0);
    assert_eq!(div_floor_signed(7, -2), -4);
    assert_eq!(div_floor_signed(-7, -2), 3);
    assert_eq!(div_floor_signed(-7, 2), -4);
}

#[test]
fn saturation_and_wide_product() {
    assert_eq!(saturate_i128(1 << 40), i32::MAX);
    assert_eq!(saturate_i128(-(1 << 40)), i32::MIN);
    assert_eq!(saturate_i128(-5), -5);
    assert_eq!(wide_product(i32::MIN, i32::MIN), 1i128 << 62);
    assert_eq!(wide_product(-3, 5), -15);
}

#[test]
fn sine_is_odd() {
    let mut raw: i32 = 0;
    while raw < 900_000 {
        assert_eq!(Fixed::from_raw(-raw).sin().raw, -Fixed::from_raw(raw).sin().raw);
        raw += 811;
    }
}
