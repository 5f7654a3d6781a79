use poppy::crypto::{fixed_from_bits, UNIT};

fn fixed(value: f64) -> Option<i64> {
    fixed_from_bits(value.to_bits())
}

#[test]
fn decimals_are_counted_in_units() {
    assert_eq!(fixed(0.0), Some(0));
    assert_eq!(fixed(-0.0), Some(0));
    assert_eq!(fixed(1.0), Some(UNIT));
    assert_eq!(fixed(-1.0), Some(-UNIT));
    assert_eq!(fixed(0.1), Some(10_000_000));
    assert_eq!(fixed(47.3), Some(4_730_000_000));
    assert_eq!(fixed(101.5), Some(10_150_000_000));
    assert_eq!(fixed(0.02), Some(2_000_000));
    assert_eq!(fixed(0.00000001), Some(1));
    assert_eq!(fixed(-0.00000001), Some(-1));
    assert_eq!(fixed(23.52), Some(2_352_000_000));
    assert_eq!(fixed(12345.67890123), Some(1_234_567_890_123));
}

#[test]
fn what_is_not_a_number_has_no_fixed_point_value() {
    assert_eq!(fixed(f64::NAN), None);
    assert_eq!(fixed(-f64::NAN), None);
    assert_eq!(fixed(f64::INFINITY), None);
    assert_eq!(fixed(f64::NEG_INFINITY), None);
    assert_eq!(fixed_from_bits(0x7ff0_0000_0000_0001), None);
    assert_eq!(fixed_from_bits(0xffff_ffff_ffff_ffff), None);
}

#[test]
fn numbers_beyond_the_range_have_no_fixed_point_value() {
    assert_eq!(fixed(f64::MAX), None);
    assert_eq!(fixed(f64::MIN), None);
    assert_eq!(fixed(1e300), None);
    assert_eq!(fixed(1e11), None);
    assert_eq!(fixed(-1e11), None);
    assert_eq!(fixed(9.3e10), None);
    assert_eq!(fixed(9.2e10), Some(9_200_000_000_000_000_000));
    assert_eq!(fixed(-9.2e10), Some(-9_200_000_000_000_000_000));
    assert_eq!(fixed(4503599627370496.0), None);
    assert_eq!(fixed(92233720368.54775807), None);
    assert_eq!(fixed(-92233720368.54775808), None);
    assert_eq!(fixed(92233720368.5477), Some(9_223_372_036_854_769_897));
    assert_eq!(fixed(-92233720368.54774), Some(-9_223_372_036_854_774_475));
}

#[test]
fn small_numbers_round_to_the_nearest_unit() {
    assert_eq!(fixed(f64::MIN_POSITIVE), Some(0));
    assert_eq!(fixed(5e-324), Some(0));
    assert_eq!(fixed(1e-30), Some(0));
    assert_eq!(fixed(0.000000004), Some(0));
    assert_eq!(fixed(0.000000006), Some(1));
    assert_eq!(fixed(0.0000000149), Some(1));
    assert_eq!(fixed(0.0000000151), Some(2));
    assert_eq!(fixed(-0.000000006), Some(-1));
    assert_eq!(fixed(0.5 / UNIT as f64), Some(1));
    assert_eq!(fixed(-0.5 / UNIT as f64), Some(-1));
    assert_eq!(fixed(1.5 / 1024.0), Some(146_484));
}

#[test]
fn conversion_agrees_with_scaling_in_floating_point() {
    let mut state: u64 = 0x2545_f491_4f6c_dd1d;
    for _ in 0..2000 {
        state ^= state << 13;
        state ^= state >> 7;
        state ^= state << 17;
        let cents = (state % 2_000_000_000_000) as f64 - 1_000_000_000_000.0;
        let value = cents / 1_000_000.0;
        let expected = (value * UNIT as f64).round();
        let got = fixed(value).unwrap();
        assert!((got as f64 - expected).abs() <= 1.0, "{} {} {}", value, got, expected);
    }
}
