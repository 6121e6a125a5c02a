use sample_downloader::ieee::{
    cap_at_hundred, clamp_percent, less32, less64, not_a_number32, not_a_number64, rank_of32,
    rank_of64, HUNDRED_64, INFINITY_32, INFINITY_64, MAX_32, MIN_32, NEG_INFINITY_64, SIGN_32,
    SIGN_64, ZERO_64,
};

fn singles() -> Vec<f32> {
    vec![
        f32::NEG_INFINITY,
        f32::MIN,
        -1.0e10,
        -1.5,
        -1.0,
        -f32::MIN_POSITIVE,
        -1.0e-45,
        -0.0,
        0.0,
        1.0e-45,
        f32::MIN_POSITIVE,
        0.25,
        1.0,
        1.5,
        1.0e10,
        f32::MAX,
        f32::INFINITY,
        f32::NAN,
        -f32::NAN,
    ]
}

fn doubles() -> Vec<f64> {
    vec![
        f64::NEG_INFINITY,
        f64::MIN,
        -100.0,
        -1.0,
        -f64::MIN_POSITIVE,
        -0.0,
        0.0,
        5.0e-324,
        0.5,
        1.0,
        99.999,
        100.0,
        100.001,
        f64::MAX,
        f64::INFINITY,
        f64::NAN,
        -f64::NAN,
    ]
}

#[test]
fn constants_are_the_patterns_they_name() {
    assert_eq!(MAX_32, f32::MAX.to_bits());
    assert_eq!(MIN_32, f32::MIN.to_bits());
    assert_eq!(INFINITY_32, f32::INFINITY.to_bits());
    assert_eq!(SIGN_32, (-0.0f32).to_bits());
    assert_eq!(INFINITY_64, f64::INFINITY.to_bits());
    assert_eq!(NEG_INFINITY_64, f64::NEG_INFINITY.to_bits());
    assert_eq!(SIGN_64, (-0.0f64).to_bits());
    assert_eq!(ZERO_64, 0.0f64.to_bits());
    assert_eq!(HUNDRED_64, 100.0f64.to_bits());
}

#[test]
fn less32_is_the_order_of_the_numbers() {
    for a in singles() {
        for b in singles() {
            assert_eq!(less32(a.to_bits(), b.to_bits()), a < b, "{} < {}", a, b);
        }
    }
}

#[test]
fn less64_is_the_order_of_the_numbers() {
    for a in doubles() {
        for b in doubles() {
            assert_eq!(less64(a.to_bits(), b.to_bits()), a < b, "{} < {}", a, b);
        }
    }
}

#[test]
fn not_a_number_is_told_from_the_bits() {
    for a in singles() {
        assert_eq!(not_a_number32(a.to_bits()), a.is_nan());
    }
    for a in doubles() {
        assert_eq!(not_a_number64(a.to_bits()), a.is_nan());
    }
}

#[test]
fn ranks_have_exact_values() {
    assert_eq!(rank_of32(0), 0);
    assert_eq!(rank_of32(0x8000_0000), 0);
    assert_eq!(rank_of32(1.0f32.to_bits()), 0x3f80_0000);
    assert_eq!(rank_of32((-1.0f32).to_bits()), -0x3f80_0000);
    assert_eq!(rank_of32(0xffff_ffff), -0x7fff_ffff);
    assert_eq!(rank_of64(0), 0);
    assert_eq!(rank_of64(100.0f64.to_bits()), 0x4059_0000_0000_0000);
    assert_eq!(rank_of64((-100.0f64).to_bits()), -0x4059_0000_0000_0000);
    assert_eq!(rank_of64(u64::MAX), -0x7fff_ffff_ffff_ffff);
}

#[test]
fn cap_at_hundred_is_the_minimum_with_a_hundred() {
    for a in doubles() {
        let capped = f64::from_bits(cap_at_hundred(a.to_bits()));
        assert_eq!(capped, a.min(100.0), "{}", a);
    }
    assert_eq!(cap_at_hundred(150.0f64.to_bits()), 100.0f64.to_bits());
    assert_eq!(cap_at_hundred(42.5f64.to_bits()), 42.5f64.to_bits());
    assert_eq!(cap_at_hundred(f64::NAN.to_bits()), 100.0f64.to_bits());
    assert_eq!(cap_at_hundred((-3.0f64).to_bits()), (-3.0f64).to_bits());
}

#[test]
fn clamp_percent_holds_to_zero_and_a_hundred() {
    for a in doubles() {
        let held = f64::from_bits(clamp_percent(a.to_bits()));
        assert_eq!(held, a.max(0.0).min(100.0), "{}", a);
        assert!((0.0..=100.0).contains(&held));
    }
    assert_eq!(clamp_percent((-3.0f64).to_bits()), 0.0f64.to_bits());
    assert_eq!(clamp_percent(f64::NAN.to_bits()), 0.0f64.to_bits());
    assert_eq!(clamp_percent(77.25f64.to_bits()), 77.25f64.to_bits());
    assert_eq!(clamp_percent(1.0e9f64.to_bits()), 100.0f64.to_bits());
}
