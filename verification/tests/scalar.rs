use egui_skia::scalar::{Scalar, UV_NUDGE_BITS, ZERO_BITS};

fn samples() -> Vec<f32> {
    vec![
        0.0,
        -0.0,
        1.0,
        -1.0,
        1.0 / 65536.0,
        f32::MIN_POSITIVE,
        f32::MIN_POSITIVE / 2.0,
        f32::MAX,
        f32::MIN,
        f32::INFINITY,
        f32::NEG_INFINITY,
        f32::NAN,
        -f32::NAN,
        f32::from_bits(0x7f80_0001),
        f32::from_bits(0xff80_0001),
        f32::from_bits(0x7fff_ffff),
        f32::from_bits(0x0000_0001),
        f32::from_bits(0x8000_0001),
        123.456,
        -9.75e-20,
    ]
}

#[test]
fn nan_is_told_from_the_pattern() {
    for x in samples() {
        assert_eq!(Scalar::from_bits(x.to_bits()).is_nan(), x.is_nan(), "{x:?}");
    }
}

#[test]
fn infinity_is_no_nan() {
    assert!(!Scalar::from_bits(0x7f80_0000).is_nan());
    assert!(!Scalar::from_bits(0xff80_0000).is_nan());
    assert!(Scalar::from_bits(0x7f80_0001).is_nan());
    assert!(Scalar::from_bits(0x7fc0_0000).is_nan());
}

#[test]
fn zero_is_told_from_the_pattern() {
    for x in samples() {
        assert_eq!(Scalar::from_bits(x.to_bits()).is_zero(), x == 0.0, "{x:?}");
    }
}

#[test]
fn both_zeros_are_zero() {
    assert!(Scalar::from_bits(0x0000_0000).is_zero());
    assert!(Scalar::from_bits(0x8000_0000).is_zero());
    assert!(!Scalar::from_bits(0x0000_0001).is_zero());
}

#[test]
fn nudge_is_two_to_the_minus_sixteen() {
    assert_eq!(UV_NUDGE_BITS, (1.0f32 / 65536.0).to_bits());
    assert_eq!(Scalar::uv_nudge().to_bits(), (1.0f32 / 65536.0).to_bits());
    assert_eq!(f32::from_bits(Scalar::uv_nudge().to_bits()), 1.0 / 65536.0);
}

#[test]
fn zero_value_is_positive_zero() {
    assert_eq!(ZERO_BITS, 0.0f32.to_bits());
    assert_eq!(Scalar::zero_value().to_bits(), 0);
    assert!(Scalar::zero_value().is_zero());
}

#[test]
fn bits_round_trip() {
    for x in samples() {
        assert_eq!(Scalar::from_bits(x.to_bits()).to_bits(), x.to_bits());
        assert_eq!(Scalar::from_bits(x.to_bits()).bits, x.to_bits());
    }
}
