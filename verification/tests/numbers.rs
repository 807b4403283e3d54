use csv_analysis::decimal::{is_decimal_bytes, is_decimal_literal};
use csv_analysis::number::{equal_numbers, finite, precedes, INFINITY_BITS, SIGN_BIT};
use csv_analysis::order::sort_values;

fn samples() -> Vec<f64> {
    vec![
        0.0,
        -0.0,
        1.0,
        -1.0,
        2.5,
        -2.5,
        1e-310,
        -1e-310,
        f64::MIN_POSITIVE,
        f64::MAX,
        f64::MIN,
        f64::EPSILON,
        5e-324,
        -5e-324,
        1e308,
        -1e308,
        f64::INFINITY,
        f64::NEG_INFINITY,
        f64::NAN,
        -f64::NAN,
    ]
}

#[test]
fn constants_are_the_patterns_of_minus_zero_and_infinity() {
    assert_eq!(SIGN_BIT, (-0.0f64).to_bits());
    assert_eq!(INFINITY_BITS, f64::INFINITY.to_bits());
}

#[test]
fn finite_agrees_with_the_floating_point_test() {
    for v in samples() {
        assert_eq!(finite(v.to_bits()), v.is_finite(), "{:?}", v);
    }
}

#[test]
fn finite_at_the_edges() {
    assert!(finite(0x7fef_ffff_ffff_ffff));
    assert!(!finite(0x7ff0_0000_0000_0000));
    assert!(!finite(0x7ff0_0000_0000_0001));
    assert!(finite(0xffef_ffff_ffff_ffff));
    assert!(!finite(0xfff0_0000_0000_0000));
    assert!(!finite(u64::MAX));
    assert!(finite(0));
    assert!(finite(SIGN_BIT));
}

#[test]
fn precedes_agrees_with_the_total_order() {
    for a in samples() {
        for b in samples() {
            assert_eq!(
                precedes(a.to_bits(), b.to_bits()),
                a.total_cmp(&b) == std::cmp::Ordering::Less,
                "{:?} {:?}",
                a,
                b
            );
        }
    }
}

#[test]
fn precedes_agrees_with_less_than_on_distinct_finite_numbers() {
    for a in samples() {
        for b in samples() {
            if a.is_finite() && b.is_finite() && a != b {
                assert_eq!(precedes(a.to_bits(), b.to_bits()), a < b, "{:?} {:?}", a, b);
            }
        }
    }
}

#[test]
fn minus_zero_precedes_zero() {
    assert!(precedes((-0.0f64).to_bits(), 0.0f64.to_bits()));
    assert!(!precedes(0.0f64.to_bits(), (-0.0f64).to_bits()));
    assert!(!precedes(0.0f64.to_bits(), 0.0f64.to_bits()));
}

#[test]
fn equal_numbers_agrees_with_equality_on_finite_numbers() {
    for a in samples() {
        for b in samples() {
            if a.is_finite() && b.is_finite() {
                assert_eq!(equal_numbers(a.to_bits(), b.to_bits()), a == b, "{:?} {:?}", a, b);
            }
        }
    }
}

#[test]
fn sort_values_sorts_as_the_total_order_does() {
    let values: Vec<f64> = vec![3.5, -1.0, 0.0, 7.25, -0.0, 3.5, -1e300, 1e-300, 2.0];
    let bits: Vec<u64> = values.iter().map(|v| v.to_bits()).collect();
    let mut expected = values.clone();
    expected.sort_by(|a, b| a.total_cmp(b));
    let expected: Vec<u64> = expected.iter().map(|v| v.to_bits()).collect();
    assert_eq!(sort_values(&bits), expected);
    assert_eq!(bits.len(), 9);
}

#[test]
fn sort_values_of_few() {
    assert_eq!(sort_values(&vec![]), Vec::<u64>::new());
    assert_eq!(sort_values(&vec![7]), vec![7]);
    assert_eq!(sort_values(&vec![9, 7]), vec![7, 9]);
    assert_eq!(sort_values(&vec![7, 7, 7]), vec![7, 7, 7]);
}

#[test]
fn sort_values_keeps_every_occurrence() {
    let bits: Vec<u64> = (0..257u64).map(|i| (i * 7919) % 101).collect();
    let sorted = sort_values(&bits);
    let mut expected = bits.clone();
    expected.sort();
    assert_eq!(sorted, expected);
}

#[test]
fn decimal_literals_are_accepted() {
    for s in [
        "0", "7", "42", "1.5", "2.5", "3.5", "+1", "-1", "-0", "5.", ".5", "-.5", "+5.", "1e5",
        "1E5", "1e+5", "1e-5", "1.e5", ".5e5", "-1.25E-10", "0012", "1e999", "0.000000000001",
        "123456789012345678901234567890",
    ] {
        assert!(is_decimal_literal(s), "{:?}", s);
        assert!(s.parse::<f64>().is_ok(), "{:?}", s);
    }
}

#[test]
fn other_texts_are_refused() {
    for s in [
        "", " ", "abc", "1,000", "1 000", "$5", "5$", "5%", " 1", "1 ", "\t1", "1\n", ".", "+",
        "-", "+.", "e5", ".e5", "1e", "1e+", "1e-", "1e5.0", "1.2.3", "1..2", "--1", "+-1", "1-",
        "1e5e5", "0x10", "1_000", "inf", "-inf", "+inf", "infinity", "Infinity", "nan", "NaN",
        "1f", "1.5f64", "١٢٣", "１.５", "1,5", "e", "E", "1d5", "½",
    ] {
        assert!(!is_decimal_literal(s), "{:?}", s);
    }
}

#[test]
fn literals_are_what_parses_to_a_number_by_notation() {
    let alphabet = ['0', '9', '.', 'e', 'E', '+', '-', 'x', ' '];
    let mut texts: Vec<String> = vec![String::new()];
    let mut from = 0;
    for _ in 0..5 {
        let to = texts.len();
        for i in from..to {
            for c in alphabet {
                let mut t = texts[i].clone();
                t.push(c);
                texts.push(t);
            }
        }
        from = to;
    }
    assert_eq!(texts.len(), 1 + 9 + 81 + 729 + 6561 + 59049);
    for t in &texts {
        assert_eq!(is_decimal_literal(t), t.parse::<f64>().is_ok(), "{:?}", t);
    }
}

#[test]
fn decimal_bytes_are_judged_as_the_text_is() {
    assert!(is_decimal_bytes(b"-12.5e3"));
    assert!(!is_decimal_bytes(b"12,5"));
    assert!(!is_decimal_bytes(&[0x31, 0xff]));
    assert!(!is_decimal_bytes(&[]));
}
