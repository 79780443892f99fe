use audio_lab::binary64::{absolute, equal, from_integer, greater_than, halve, less_or_equal, less_than};
use audio_lab::text::decimal_string;

fn specials() -> Vec<f64> {
    vec![
        0.0,
        -0.0,
        1.0,
        -1.0,
        0.5,
        -2.5,
        f64::MIN_POSITIVE,
        -f64::MIN_POSITIVE,
        f64::from_bits(1),
        f64::from_bits(0x8000_0000_0000_0003),
        f64::MAX,
        f64::MIN,
        f64::INFINITY,
        f64::NEG_INFINITY,
        f64::NAN,
        48_000.0,
        1e-300,
    ]
}

#[test]
fn comparisons_match_binary64_on_special_values() {
    for a in specials() {
        for b in specials() {
            assert_eq!(less_than(a.to_bits(), b.to_bits()), a < b, "{a} < {b}");
            assert_eq!(greater_than(a.to_bits(), b.to_bits()), a > b, "{a} > {b}");
            assert_eq!(less_or_equal(a.to_bits(), b.to_bits()), a <= b, "{a} <= {b}");
            assert_eq!(equal(a.to_bits(), b.to_bits()), a == b, "{a} == {b}");
        }
        assert_eq!(absolute(a.to_bits()), a.abs().to_bits());
    }
}

#[test]
fn halving_matches_division_by_two() {
    let mut values = specials();
    values.extend([3.0 * f64::MIN_POSITIVE, f64::from_bits(3), f64::from_bits(0x000F_FFFF_FFFF_FFFF), 44_100.0]);
    for v in values {
        let expected = v / 2.0;
        let got = f64::from_bits(halve(v.to_bits()));
        if v.is_nan() {
            assert!(got.is_nan());
        } else {
            assert_eq!(got.to_bits(), expected.to_bits(), "{v} / 2");
        }
    }
}

#[test]
fn integers_convert_like_a_cast() {
    let mut samples: Vec<u64> = (0..2000).collect();
    samples.extend([
        (1 << 53) - 1,
        1 << 53,
        (1 << 53) + 1,
        (1 << 53) + 3,
        (1 << 54) + 2,
        (1 << 54) + 6,
        u64::MAX,
        u64::MAX - 1024,
        0x1234_5678_9ABC_DEF1,
    ]);
    for n in samples {
        assert_eq!(from_integer(n), (n as f64).to_bits(), "{n}");
    }
}

#[test]
fn decimal_text_of_numbers() {
    assert_eq!(decimal_string(0), "0");
    assert_eq!(decimal_string(7), "7");
    assert_eq!(decimal_string(10), "10");
    assert_eq!(decimal_string(1234567890), "1234567890");
    assert_eq!(decimal_string(usize::MAX), usize::MAX.to_string());
}
