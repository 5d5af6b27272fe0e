use billiard_core::scalar::{Scalar, INFINITY_BITS, ONE_BITS, SIGN_BIT, ZERO_BITS};

fn scalar(value: f64) -> Scalar {
    Scalar::from_bits(value.to_bits())
}

fn num(value: Scalar) -> f64 {
    f64::from_bits(value.to_bits())
}

fn samples() -> Vec<f64> {
    vec![
        0.0,
        -0.0,
        1.0,
        -1.0,
        0.5,
        1e-300,
        -1e-300,
        5e-324,
        -5e-324,
        1e300,
        -1e300,
        f64::MAX,
        f64::MIN,
        f64::MIN_POSITIVE,
        -f64::MIN_POSITIVE,
        f64::EPSILON,
        f64::INFINITY,
        f64::NEG_INFINITY,
        f64::NAN,
        -f64::NAN,
        f64::from_bits(0x7ff0_0000_0000_0001),
        f64::from_bits(0xffff_ffff_ffff_ffff),
        std::f64::consts::PI,
        -std::f64::consts::TAU,
        1e-8,
        1e-12,
        0.1 + 0.2,
        0.3,
    ]
}

#[test]
fn ordering_agrees_with_binary64_comparison() {
    for &a in &samples() {
        for &b in &samples() {
            assert_eq!(scalar(a).lt(scalar(b)), a < b, "{} < {}", a, b);
            assert_eq!(scalar(a).le(scalar(b)), a <= b, "{} <= {}", a, b);
            assert_eq!(scalar(a).gt(scalar(b)), a > b, "{} > {}", a, b);
            assert_eq!(scalar(a).ge(scalar(b)), a >= b, "{} >= {}", a, b);
        }
    }
}

#[test]
fn ordering_agrees_with_binary64_comparison_on_scrambled_bits() {
    // A fixed walk through the bit patterns.
    let mut bits: u64 = 0x9e37_79b9_7f4a_7c15;
    let mut previous = f64::from_bits(bits);
    for _ in 0..20000 {
        bits = bits.wrapping_mul(6364136223846793005).wrapping_add(1442695040888963407);
        let current = f64::from_bits(bits);
        assert_eq!(scalar(previous).lt(scalar(current)), previous < current);
        assert_eq!(scalar(previous).le(scalar(current)), previous <= current);
        assert_eq!(scalar(current).is_nan(), current.is_nan());
        assert_eq!(scalar(current).is_finite(), current.is_finite());
        assert_eq!(scalar(current).neg().to_bits(), (-current).to_bits());
        assert_eq!(scalar(current).abs().to_bits(), current.abs().to_bits());
        previous = current;
    }
}

#[test]
fn classes_agree_with_binary64() {
    for &a in &samples() {
        assert_eq!(scalar(a).is_nan(), a.is_nan(), "{}", a);
        assert_eq!(scalar(a).is_finite(), a.is_finite(), "{}", a);
    }
}

#[test]
fn negation_and_size_flip_and_clear_the_sign_bit() {
    for &a in &samples() {
        assert_eq!(scalar(a).neg().to_bits(), (-a).to_bits(), "{}", a);
        assert_eq!(scalar(a).abs().to_bits(), a.abs().to_bits(), "{}", a);
    }
    assert_eq!(num(scalar(2.5).neg()), -2.5);
    assert_eq!(num(scalar(-2.5).abs()), 2.5);
    assert_eq!(scalar(0.0).neg().to_bits(), SIGN_BIT);
}

#[test]
fn order_key_orders_as_the_numbers_do() {
    let ordered = [
        f64::NEG_INFINITY,
        f64::MIN,
        -1.0,
        -5e-324,
        0.0,
        5e-324,
        1e-8,
        1.0,
        f64::MAX,
        f64::INFINITY,
    ];
    for pair in ordered.windows(2) {
        assert!(scalar(pair[0]).order_key() < scalar(pair[1]).order_key());
    }
    assert_eq!(scalar(0.0).order_key(), 0);
    assert_eq!(scalar(-0.0).order_key(), 0);
    assert_eq!(scalar(5e-324).order_key(), 1);
    assert_eq!(scalar(-5e-324).order_key(), -1);
}

#[test]
fn constants_are_the_bit_patterns_they_stand_for() {
    assert_eq!(ZERO_BITS, 0.0f64.to_bits());
    assert_eq!(ONE_BITS, 1.0f64.to_bits());
    assert_eq!(INFINITY_BITS, f64::INFINITY.to_bits());
    assert_eq!(SIGN_BIT, (-0.0f64).to_bits());
    assert_eq!(Scalar::zero().to_bits(), 0);
    assert_eq!(Scalar::from_bits(ONE_BITS).to_bits(), 1.0f64.to_bits());
    assert_eq!(num(Scalar::from_bits(0x4009_21fb_5444_2d18)), std::f64::consts::PI);
}
