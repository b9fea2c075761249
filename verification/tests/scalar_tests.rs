use rusty_shooter::tick::within_pickup_radius;
use rusty_shooter::scalar::Scalar;
use rusty_shooter::scalar::Vector3;
use rusty_shooter::scalar::ONE_AND_A_QUARTER;

fn s(x: f32) -> Scalar {
    Scalar::from_bits(x.to_bits())
}

fn samples() -> Vec<f32> {
    vec![
        0.0,
        -0.0,
        1.0,
        -1.0,
        1.25,
        1.2499,
        1.2500001,
        -1.25,
        100.0,
        -100.0,
        f32::MIN_POSITIVE,
        -f32::MIN_POSITIVE,
        1.0e-45,
        -1.0e-45,
        f32::MAX,
        f32::MIN,
        f32::INFINITY,
        f32::NEG_INFINITY,
        f32::NAN,
        -f32::NAN,
        f32::from_bits(0x7F80_0001),
        f32::from_bits(0xFFFF_FFFF),
    ]
}

#[test]
fn lt_agrees_with_the_numbers() {
    for a in samples() {
        for b in samples() {
            assert_eq!(s(a).lt(s(b)), a < b, "{} < {}", a, b);
        }
    }
}

#[test]
fn le_agrees_with_the_numbers() {
    for a in samples() {
        for b in samples() {
            assert_eq!(s(a).le(s(b)), a <= b, "{} <= {}", a, b);
        }
    }
}

#[test]
fn is_nan_agrees_with_the_numbers() {
    for a in samples() {
        assert_eq!(s(a).is_nan(), a.is_nan(), "{}", a);
    }
}

#[test]
fn sign_tests_agree_with_the_numbers() {
    for a in samples() {
        assert_eq!(s(a).is_positive(), a > 0.0, "{} > 0", a);
        assert_eq!(s(a).is_non_positive(), a <= 0.0, "{} <= 0", a);
    }
}

#[test]
fn both_zeros_are_equal_in_order() {
    assert!(!s(0.0).lt(s(-0.0)));
    assert!(!s(-0.0).lt(s(0.0)));
    assert!(s(0.0).le(s(-0.0)));
    assert!(s(-0.0).le(s(0.0)));
}

#[test]
fn bits_round_trip() {
    assert_eq!(Scalar::from_bits(0x3FA0_0000).to_bits(), 0x3FA0_0000);
    assert_eq!(Scalar::zero().to_bits(), 0);
    assert_eq!(s(1.25).to_bits(), ONE_AND_A_QUARTER);
}

#[test]
fn vector_keeps_its_coordinates() {
    let v = Vector3::new(s(1.0), s(2.0), s(3.0));
    assert_eq!(v.x, s(1.0));
    assert_eq!(v.y, s(2.0));
    assert_eq!(v.z, s(3.0));
    let o = Vector3::origin();
    assert_eq!(o, Vector3::new(s(0.0), s(0.0), s(0.0)));
}

#[test]
fn pickup_radius_is_strict() {
    assert!(!within_pickup_radius(s(1.25)));
    assert!(within_pickup_radius(s(1.2499)));
    assert!(within_pickup_radius(s(0.0)));
    assert!(!within_pickup_radius(s(1.2500001)));
    assert!(!within_pickup_radius(s(f32::NAN)));
    assert!(!within_pickup_radius(s(f32::INFINITY)));
    assert!(within_pickup_radius(Scalar::from_bits(ONE_AND_A_QUARTER - 1)));
}
