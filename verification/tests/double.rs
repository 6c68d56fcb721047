use arb::double::Double;

fn d(x: f64) -> Double {
    Double { bits: x.to_bits() }
}

const SAMPLES: [f64; 14] = [
    0.0,
    -0.0,
    1.0,
    -1.0,
    0.1,
    -0.1,
    5e-324,
    -5e-324,
    f64::MAX,
    f64::MIN,
    f64::INFINITY,
    f64::NEG_INFINITY,
    f64::NAN,
    1e-8,
];

#[test]
fn order_of_doubles() {
    for a in SAMPLES {
        for b in SAMPLES {
            assert_eq!(d(a).lt(&d(b)), a < b, "{} < {}", a, b);
            assert_eq!(d(a).le(&d(b)), a <= b, "{} <= {}", a, b);
        }
    }
}

#[test]
fn signs_of_doubles() {
    for a in SAMPLES {
        assert_eq!(d(a).is_nan(), a.is_nan());
        assert_eq!(d(a).is_zero(), a == 0.0);
        assert_eq!(d(a).is_positive(), a > 0.0);
        assert_eq!(d(a).abs().bits, a.abs().to_bits());
    }
}

#[test]
fn larger_of_two_doubles() {
    for a in SAMPLES {
        for b in SAMPLES {
            let m = f64::from_bits(d(a).max(&d(b)).bits);
            let want = a.max(b);
            assert!(m == want || m.is_nan() && want.is_nan(), "{} {}", a, b);
        }
    }
}

#[test]
fn negative_not_a_number_is_no_number() {
    let n = Double { bits: (-f64::NAN).to_bits() };
    assert!(n.is_nan());
    assert!(!n.lt(&d(0.0)));
    assert!(!d(0.0).lt(&n));
    assert_eq!(n.max(&d(2.0)), d(2.0));
    assert_eq!(d(2.0).max(&n), d(2.0));
}

#[test]
fn clearing_the_sign_never_gives_less_than_zero() {
    for a in SAMPLES {
        assert!(!d(a).abs().lt(&d(0.0)));
        assert_eq!(d(a).abs().abs(), d(a).abs());
    }
}
