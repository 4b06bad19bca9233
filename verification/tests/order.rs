use apex_equalizer::bands::PEAK_FLOOR;
use apex_equalizer::{double, single};

const SINGLES: [f32; 13] = [
    f32::NEG_INFINITY,
    -1.5,
    -1.0e-6,
    -1.0e-44,
    -0.0,
    0.0,
    1.0e-44,
    1.0e-6,
    0.5,
    1.0,
    3.0e38,
    f32::INFINITY,
    f32::NAN,
];

#[test]
fn singles_are_ordered_as_numbers() {
    for a in SINGLES {
        for b in SINGLES {
            assert_eq!(single::is_above(a.to_bits(), b.to_bits()), a > b, "{a} {b}");
            let max = f32::from_bits(single::max(a.to_bits(), b.to_bits()));
            assert!(max == a.max(b) || (a.is_nan() && b.is_nan() && max.is_nan()));
            let min = f32::from_bits(single::min(a.to_bits(), b.to_bits()));
            assert!(min == a.min(b) || (a.is_nan() && b.is_nan() && min.is_nan()));
        }
        let r = f32::from_bits(single::clamp(a.to_bits(), 0, single::ONE));
        assert!(r == a.clamp(0.0, 1.0) || (a.is_nan() && r.is_nan()));
        assert!(a.is_nan() || (0.0..=1.0).contains(&r));
    }
    assert!(!single::is_above((-f32::NAN).to_bits(), 0));
}

#[test]
fn doubles_are_ordered_as_numbers() {
    for a in SINGLES {
        for b in SINGLES {
            let (a, b) = (f64::from(a), f64::from(b));
            assert_eq!(double::is_above(a.to_bits(), b.to_bits()), a > b);
            let max = f64::from_bits(double::max(a.to_bits(), b.to_bits()));
            assert!(max == a.max(b) || (a.is_nan() && b.is_nan() && max.is_nan()));
            let min = f64::from_bits(double::min(a.to_bits(), b.to_bits()));
            assert!(min == a.min(b) || (a.is_nan() && b.is_nan() && min.is_nan()));
        }
    }
}

#[test]
fn doubles_are_clamped_as_numbers() {
    for a in SINGLES {
        let a = f64::from(a);
        let r = f64::from_bits(double::clamp(
            a.to_bits(),
            0.01_f64.to_bits(),
            1.0_f64.to_bits(),
        ));
        assert!(r == a.clamp(0.01, 1.0) || (a.is_nan() && r.is_nan()));
        assert!(a.is_nan() || (0.01..=1.0).contains(&r));
    }
}

#[test]
fn infinity_and_floor_are_the_right_patterns() {
    assert_eq!(single::INFINITY, f32::INFINITY.to_bits());
    assert_eq!(single::ONE, 1.0_f32.to_bits());
    assert_eq!(single::MINUS_ONE, (-1.0_f32).to_bits());
    assert_eq!(double::INFINITY, f64::INFINITY.to_bits());
    assert_eq!(PEAK_FLOOR, 1.0e-6_f32.to_bits());
}
