use rustdac::single::{Single, MINUS_ONE, ONE, ZERO};

fn single(x: f32) -> Single {
    Single { bits: x.to_bits() }
}

fn interesting() -> Vec<f32> {
    vec![
        0.0,
        -0.0,
        1.0,
        -1.0,
        0.001,
        0.02,
        -0.02,
        1.5,
        -1.5,
        f32::MIN_POSITIVE,
        -f32::MIN_POSITIVE,
        f32::from_bits(1),
        f32::from_bits(0x8000_0001),
        f32::MAX,
        f32::MIN,
        f32::INFINITY,
        f32::NEG_INFINITY,
        f32::NAN,
        f32::from_bits(0xffc0_0000),
    ]
}

#[test]
fn comparison_agrees_with_hardware() {
    for a in interesting() {
        for b in interesting() {
            assert_eq!(single(a).is_below(single(b)), a < b, "{} < {}", a, b);
        }
        assert_eq!(single(a).nan(), a.is_nan());
    }
}

#[test]
fn clamp_agrees_with_hardware() {
    for a in interesting() {
        let clamped = single(a).clamp(Single { bits: MINUS_ONE }, Single { bits: ONE });
        assert_eq!(clamped.bits, a.clamp(-1.0, 1.0).to_bits());
    }
    assert_eq!(Single { bits: ONE }, single(1.0));
    assert_eq!(Single { bits: MINUS_ONE }, single(-1.0));
    assert_eq!(Single { bits: ZERO }, single(0.0));
}

#[test]
fn raising_agrees_with_hardware() {
    for a in interesting() {
        let raised = single(a).at_least(single(0.001));
        assert_eq!(raised.bits, a.max(0.001).to_bits());
    }
}

#[test]
fn order_is_strict_and_total_on_numbers() {
    for a in interesting() {
        assert!(!single(a).is_below(single(a)));
        for b in interesting() {
            let below = single(a).is_below(single(b));
            let above = single(b).is_below(single(a));
            assert!(!(below && above));
            if !a.is_nan() && !b.is_nan() {
                assert_eq!(below || above, a != b);
            }
        }
    }
}

#[test]
fn clamping_twice_is_clamping_once() {
    for a in interesting() {
        let low = Single { bits: MINUS_ONE };
        let high = Single { bits: ONE };
        let once = single(a).clamp(low, high);
        assert_eq!(once.clamp(low, high), once);
        assert!(!once.is_below(low) && !high.is_below(once));
    }
}
