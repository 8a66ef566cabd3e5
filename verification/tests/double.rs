use telemetry_agent::Double;

fn d(x: f64) -> Double {
    Double::from_bits(x.to_bits())
}

fn values() -> Vec<f64> {
    vec![
        0.0,
        -0.0,
        1.0,
        -1.0,
        0.5,
        -0.5,
        5.0,
        10.0,
        1e-320,
        -1e-320,
        f64::MIN_POSITIVE,
        -f64::MIN_POSITIVE,
        f64::MAX,
        f64::MIN,
        f64::INFINITY,
        f64::NEG_INFINITY,
        f64::NAN,
        -f64::NAN,
        f64::EPSILON,
        123456.789,
        -123456.789,
        9999.999999,
        10000.0,
    ]
}

#[test]
fn le_orders_as_the_numbers_do() {
    for a in values() {
        for b in values() {
            assert_eq!(d(a).le(d(b)), a <= b, "{} <= {}", a, b);
        }
    }
}

#[test]
fn is_nan_tells_the_nans() {
    for a in values() {
        assert_eq!(d(a).is_nan(), a.is_nan(), "{}", a);
    }
    assert!(Double::from_bits(0x7FF0_0000_0000_0001).is_nan());
    assert!(Double::from_bits(0xFFF8_0000_0000_0000).is_nan());
    assert!(!Double::from_bits(0x7FF0_0000_0000_0000).is_nan());
    assert!(!Double::from_bits(0xFFF0_0000_0000_0000).is_nan());
}

#[test]
fn the_zeros_are_equal_in_order_and_differ_in_bits() {
    assert!(d(0.0).le(d(-0.0)));
    assert!(d(-0.0).le(d(0.0)));
    assert_ne!(d(0.0), d(-0.0));
    assert_eq!(d(-0.0).to_bits(), 0x8000_0000_0000_0000);
}

#[test]
fn a_nan_is_below_nothing_and_above_nothing() {
    assert!(!d(f64::NAN).le(d(f64::NAN)));
    assert!(!d(f64::NAN).le(d(f64::INFINITY)));
    assert!(!d(f64::NEG_INFINITY).le(d(f64::NAN)));
}

#[test]
fn bits_go_in_and_out_unchanged() {
    assert_eq!(Double::from_bits(0x4014_0000_0000_0000).to_bits(), 0x4014_0000_0000_0000);
    assert_eq!(d(5.0).to_bits(), 0x4014_0000_0000_0000);
    assert_eq!(d(5.0).bits, 5.0f64.to_bits());
}
