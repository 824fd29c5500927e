use state_machine::bignat::{BigNat, Relation};
use state_machine::double::{
    double_at_most, double_key, double_less, i64_to_double, is_finite_double, u64_to_double,
};
use state_machine::numeral::parse_double;
use state_machine::rational::ratio_to_double;
use state_machine::text::decimal;

fn check_text(text: &str) {
    match (text.parse::<f64>(), parse_double(text)) {
        (Ok(expected), Some(bits)) => {
            let found = f64::from_bits(bits);
            if expected.is_nan() {
                assert!(found.is_nan(), "{text}");
            } else {
                assert_eq!(expected.to_bits(), bits, "{text}: {expected} {found}");
            }
        }
        (Err(_), None) => {}
        (expected, found) => panic!("{text}: {expected:?} {found:?}"),
    }
}

#[test]
fn texts_denote_the_nearest_doubles() {
    for text in [
        "0", "-0", "+0", "1", "-1", "+1", "4999", "0.1", "0.2", "0.3", "3.14159", "2.5e3", "2.5E-3",
        "1e22", "1e23", "123456789012345678", "9007199254740993", "9007199254740992.5",
        "9007199254740993.0000000000000001", "0.000001", "1.7976931348623157e308",
        "1.7976931348623158e308", "1.7976931348623159e308", "1.8e308", "1e309", "4.9e-324",
        "2.4703282292062327e-324", "2.4703282292062328e-324", "2.5e-324", "2e-324", "1e-400",
        "2.2250738585072014e-308", "2.2250738585072011e-308", "2.225073858507201e-308",
        "18446744073709551615", "18446744073709551616", "9223372036854775807", "0.5", ".5", "5.",
        "00012.3400", "1e+5", "1e0", "1e00000000000000000000000000000000000001", "1e-0",
        "6.02214076e23", "8.5e-5", "179769313486231580793728971405303415079934132710037826936173778980444968292764750946649017977587207096330286416692887910946555547851940402630657488671505820681908902000708383676273854845817711531764475730270069855571366959622842914819860834936475292719074168444365510704342711559699508093042880",
    ] {
        check_text(text);
    }
}

#[test]
fn exponents_may_be_very_large() {
    for text in [
        "1e99999999999999999999999999999999999999",
        "-1e99999999999999999999999999999999999999",
        "1e-99999999999999999999999999999999999999",
        "0e99999999999999999999999999999999999999",
        "0.0e-999999999999999999999",
        "123e4567",
        "123e-4567",
    ] {
        check_text(text);
    }
}

#[test]
fn words_denote_infinities_and_nothing() {
    for text in [
        "inf", "-inf", "+inf", "INF", "Inf", "iNf", "infinity", "-Infinity", "INFINITY", "nan",
        "NaN", "-nan", "+NAN",
    ] {
        check_text(text);
    }
}

#[test]
fn other_texts_denote_no_double() {
    for text in [
        "", "+", "-", ".", "+.", "e5", ".e5", "1e", "1e+", "1e-", "1e5.", "1.2.3", "1,5", " 1", "1 ",
        "0x10", "1_000", "--1", "+-1", "in", "infinit", "infinityy", "na", "nann", "abc", "1f", "é1",
        "١",
    ] {
        assert!(text.parse::<f64>().is_err());
        check_text(text);
    }
}

#[test]
fn many_texts_denote_what_rust_reads() {
    let mut seed: u64 = 0x9e3779b97f4a7c15;
    for _ in 0..400 {
        seed = seed.wrapping_mul(6364136223846793005).wrapping_add(1442695040888963407);
        let digits = seed >> 3;
        let exponent = ((seed >> 17) % 700) as i64 - 350;
        check_text(&format!("{digits}e{exponent}"));
        check_text(&format!("-{}.{:06}", digits >> 30, digits % 1_000_000));
        let double = f64::from_bits(seed & 0x7fef_ffff_ffff_ffff);
        check_text(&format!("{double}"));
        check_text(&format!("{double:e}"));
    }
}

#[test]
fn integers_become_the_nearest_doubles() {
    for n in [
        0u64, 1, 2, 3, 5, 4999, (1 << 53) - 1, 1 << 53, (1 << 53) + 1, (1 << 53) + 2, (1 << 53) + 3,
        (1 << 54) + 2, (1 << 54) + 6, (1 << 63) - 1, 1 << 63, (1 << 63) + 1024, (1 << 63) + 1025,
        u64::MAX - 1, u64::MAX,
    ] {
        assert_eq!(u64_to_double(n), (n as f64).to_bits(), "{n}");
        assert_eq!(f64::from_bits(i64_to_double(n as i64)), n as i64 as f64, "{n}");
        assert_eq!(parse_double(&decimal(n)), Some(u64_to_double(n)));
    }
    assert_eq!(f64::from_bits(i64_to_double(i64::MIN)), i64::MIN as f64);
    assert_eq!(f64::from_bits(i64_to_double(-7)), -7.0);
}

#[test]
fn doubles_are_ordered_as_rust_orders_them() {
    let values = [
        f64::NEG_INFINITY, -1e300, -2.5, -1.0, -5e-324, -0.0, 0.0, 5e-324, 0.1, 1.0, 2.5, 1e300,
        f64::INFINITY, f64::NAN, -f64::NAN,
    ];
    for a in values {
        for b in values {
            assert_eq!(double_less(a.to_bits(), b.to_bits()), a < b, "{a} {b}");
            assert_eq!(double_at_most(a.to_bits(), b.to_bits()), a <= b, "{a} {b}");
        }
        assert_eq!(is_finite_double(a.to_bits()), a.is_finite());
    }
    assert_eq!(double_key(0.0f64.to_bits()), 0);
    assert_eq!(double_key((-0.0f64).to_bits()), 0);
}

fn big(text: &str) -> BigNat {
    let mut number = BigNat::new(0);
    for c in text.chars() {
        number.multiply_add(10, c.to_digit(10).unwrap());
    }
    number
}

#[test]
fn large_numbers_are_compared_and_subtracted() {
    let mut a = big("123456789012345678901234567890");
    let b = big("123456789012345678901234567889");
    assert!(matches!(a.relation(&b), Relation::Greater));
    assert!(matches!(b.relation(&a), Relation::Less));
    a.subtract(&b);
    assert!(matches!(a.relation(&BigNat::new(1)), Relation::Equal));
    let mut c = big("18446744073709551616");
    c.subtract(&BigNat::new(1));
    assert!(matches!(c.relation(&big("18446744073709551615")), Relation::Equal));
    assert_eq!(BigNat::new(7).length(), 1);
}

#[test]
fn fractions_become_the_nearest_doubles() {
    assert_eq!(f64::from_bits(ratio_to_double(BigNat::new(1), BigNat::new(3))), 1.0 / 3.0);
    assert_eq!(f64::from_bits(ratio_to_double(BigNat::new(10), BigNat::new(4))), 2.5);
    assert_eq!(f64::from_bits(ratio_to_double(BigNat::new(2), BigNat::new(3))), 2.0 / 3.0);
}

#[test]
fn numbers_are_written_in_decimal_digits() {
    for n in [0u64, 7, 10, 42, 100, 1234567890, u64::MAX] {
        assert_eq!(decimal(n), n.to_string());
    }
}
