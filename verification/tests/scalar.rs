use pdb_tui::scalar::Scalar;

fn scalar(value: f32) -> Scalar {
    Scalar::from_bits(value.to_bits())
}

fn samples() -> Vec<f32> {
    vec![
        0.0,
        -0.0,
        1.0,
        -1.0,
        0.15,
        0.2,
        1.1,
        -0.1,
        5.0,
        -5.0,
        f32::MIN_POSITIVE,
        -f32::MIN_POSITIVE,
        f32::from_bits(1),
        f32::from_bits(0x8000_0001),
        f32::MAX,
        f32::MIN,
        f32::INFINITY,
        f32::NEG_INFINITY,
        f32::NAN,
        f32::from_bits(0xffc0_0001),
        f32::from_bits(0x7f80_0001),
        1.0e-20,
        -3.5e12,
    ]
}

#[test]
fn order_agrees_with_the_numbers() {
    for &a in samples().iter() {
        for &b in samples().iter() {
            assert_eq!(scalar(a).lt(scalar(b)), a < b, "{a} < {b}");
            assert_eq!(scalar(a).le(scalar(b)), a <= b, "{a} <= {b}");
            assert_eq!(scalar(a).gt(scalar(b)), a > b, "{a} > {b}");
            assert_eq!(scalar(a).ge(scalar(b)), a >= b, "{a} >= {b}");
        }
    }
}

#[test]
fn not_a_number_is_told_apart() {
    for &a in samples().iter() {
        assert_eq!(scalar(a).is_nan(), a.is_nan(), "{a}");
    }
}

#[test]
fn min_and_max_pass_over_what_is_no_number() {
    for &a in samples().iter() {
        for &b in samples().iter() {
            let least = f32::from_bits(scalar(a).min(scalar(b)).to_bits());
            let greatest = f32::from_bits(scalar(a).max(scalar(b)).to_bits());
            if a.is_nan() && b.is_nan() {
                assert!(least.is_nan() && greatest.is_nan());
            } else {
                assert!(least == a.min(b), "min({a}, {b}) = {least}");
                assert!(greatest == a.max(b), "max({a}, {b}) = {greatest}");
            }
        }
    }
}

#[test]
fn bits_go_in_and_out_unchanged() {
    assert_eq!(Scalar::from_bits(0x3f8c_cccd).to_bits(), 0x3f8c_cccd);
    assert_eq!(Scalar::zero().to_bits(), 0.0f32.to_bits());
    assert_eq!(Scalar::infinity().to_bits(), f32::INFINITY.to_bits());
    assert_eq!(scalar(1.1), Scalar::from_bits(0x3f8c_cccd));
}

#[test]
fn the_zeros_are_equal_numbers_of_different_bits() {
    assert!(scalar(0.0).le(scalar(-0.0)) && scalar(-0.0).le(scalar(0.0)));
    assert!(!scalar(0.0).lt(scalar(-0.0)) && !scalar(-0.0).lt(scalar(0.0)));
    assert_ne!(scalar(0.0), scalar(-0.0));
}
