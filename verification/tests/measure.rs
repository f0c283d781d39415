use erd_core::measure::default_canvas_height;
use erd_core::measure::default_canvas_width;
use erd_core::measure::default_height;
use erd_core::measure::default_pos_x;
use erd_core::measure::default_pos_y;
use erd_core::measure::default_true;
use erd_core::measure::default_width;
use erd_core::measure::Measure;

fn measure(value: f64) -> Measure {
    Measure::from_bits(value.to_bits())
}

fn samples() -> Vec<f64> {
    vec![
        0.0,
        -0.0,
        1.0,
        -1.0,
        150.0,
        -150.0,
        0.5,
        -0.5,
        f64::MIN_POSITIVE,
        -f64::MIN_POSITIVE,
        5e-324,
        -5e-324,
        f64::MAX,
        f64::MIN,
        f64::INFINITY,
        f64::NEG_INFINITY,
        f64::NAN,
        -f64::NAN,
        f64::from_bits(0x7FF0_0000_0000_0001),
        f64::from_bits(0xFFFF_FFFF_FFFF_FFFF),
    ]
}

#[test]
fn defaults_are_the_documented_numbers() {
    assert!(default_true());
    assert_eq!(f64::from_bits(default_width().to_bits()), 150.0);
    assert_eq!(f64::from_bits(default_height().to_bits()), 100.0);
    assert_eq!(f64::from_bits(default_pos_x().to_bits()), 50.0);
    assert_eq!(f64::from_bits(default_pos_y().to_bits()), 50.0);
    assert_eq!(f64::from_bits(default_canvas_width().to_bits()), 1200.0);
    assert_eq!(f64::from_bits(default_canvas_height().to_bits()), 800.0);
}

#[test]
fn bits_go_in_and_come_out() {
    for v in samples() {
        assert_eq!(measure(v).to_bits(), v.to_bits());
        assert_eq!(measure(v).bits, v.to_bits());
    }
}

#[test]
fn at_most_zero_is_the_comparison_of_numbers() {
    for v in samples() {
        assert_eq!(measure(v).at_most_zero(), v <= 0.0, "{:?}", v);
    }
}

#[test]
fn is_positive_is_the_comparison_of_numbers() {
    for v in samples() {
        assert_eq!(measure(v).is_positive(), v > 0.0, "{:?}", v);
    }
}

#[test]
fn is_nan_and_is_finite_are_those_of_numbers() {
    for v in samples() {
        assert_eq!(measure(v).is_nan(), v.is_nan(), "{:?}", v);
        assert_eq!(measure(v).is_finite(), v.is_finite(), "{:?}", v);
    }
}

#[test]
fn every_number_is_of_one_kind() {
    for v in samples() {
        let m = measure(v);
        let kinds = [m.at_most_zero(), m.is_positive(), m.is_nan()];
        assert_eq!(kinds.iter().filter(|k| **k).count(), 1, "{:?}", v);
    }
}
