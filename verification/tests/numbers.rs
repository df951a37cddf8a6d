use lux::literal::{Float, Literal};
use lux::clock::reading_of;
use lux::number::{ieee_less, ieee_less_equal, ieee_negate, suits_text};
use lux::text::decimal;

fn float(value: f64) -> Float {
    Float(value.to_bits())
}

fn value_of(float: Float) -> f64 {
    f64::from_bits(float.0)
}

#[test]
fn addition_is_ieee_addition() {
    assert_eq!(float(1.0).add(float(2.0)), float(3.0));
    assert_eq!(float(0.1).add(float(0.2)), float(0.1 + 0.2));
    assert_eq!(float(1e308).add(float(1e308)), float(f64::INFINITY));
}

#[test]
fn subtraction_is_ieee_subtraction() {
    assert_eq!(float(5.5).sub(float(2.25)), float(3.25));
    assert_eq!(float(0.3).sub(float(0.1)), float(0.3 - 0.1));
}

#[test]
fn multiplication_is_ieee_multiplication() {
    assert_eq!(float(2.0).mul(float(3.0)), float(6.0));
    assert_eq!(float(0.1).mul(float(3.0)), float(0.1 * 3.0));
}

#[test]
fn division_is_ieee_division() {
    assert_eq!(float(1.0).div(float(4.0)), float(0.25));
    assert_eq!(float(1.0).div(float(3.0)), float(1.0 / 3.0));
    assert_eq!(float(1.0).div(float(0.0)), float(f64::INFINITY));
    assert_eq!(float(-1.0).div(float(0.0)), float(f64::NEG_INFINITY));
    assert!(value_of(float(0.0).div(float(0.0))).is_nan());
}

#[test]
fn negation_flips_the_sign() {
    assert_eq!(float(2.5).neg(), float(-2.5));
    assert_eq!(float(-2.5).neg(), float(2.5));
    assert_eq!(float(0.0).neg(), float(-0.0));
    assert_eq!(ieee_negate(0), 0x8000_0000_0000_0000);
}

#[test]
fn comparison_is_ieee_comparison() {
    let samples = [
        f64::NEG_INFINITY,
        -2.5,
        -1.0,
        -0.0,
        0.0,
        5e-324,
        1.0,
        1.5,
        1e300,
        f64::INFINITY,
        f64::NAN,
    ];
    for a in samples {
        for b in samples {
            assert_eq!(ieee_less(a.to_bits(), b.to_bits()), a < b, "{} < {}", a, b);
            assert_eq!(ieee_less_equal(a.to_bits(), b.to_bits()), a <= b, "{} <= {}", a, b);
            assert_eq!(float(a).less(float(b)), a < b);
            assert_eq!(float(a).less_equal(float(b)), a <= b);
        }
    }
}

#[test]
fn parse_reads_decimal_text() {
    assert_eq!(Float::parse("42"), Some(float(42.0)));
    assert_eq!(Float::parse("3.14"), Some(float(3.14)));
    assert_eq!(Float::parse("0.5"), Some(float(0.5)));
    assert_eq!(Float::parse("abc"), None);
    assert_eq!(Float::parse(""), None);
}

#[test]
fn number_text() {
    assert_eq!(float(7.0).to_string(), "7");
    assert_eq!(float(1.5).to_string(), "1.5");
    assert_eq!(float(-3.0).to_string(), "-3");
    assert_eq!(float(0.0).to_string(), "0");
    assert_eq!(float(0.25).to_string(), "0.25");
    assert_eq!(float(f64::NAN).to_string(), "NaN");
    assert_eq!(float(0.1).to_string(), "0.1");
    assert_eq!(float(0.1 + 0.2).to_string(), "0.30000000000000004");
    assert_eq!(float(1.0 / 3.0).to_string(), "0.3333333333333333");
    assert_eq!(float(1234.5).to_string(), "1234.5");
    assert_eq!(float(0.001).to_string(), "0.001");
    assert_eq!(float(-0.0).to_string(), "-0");
    assert_eq!(float(f64::INFINITY).to_string(), "+Inf");
    assert_eq!(float(f64::NEG_INFINITY).to_string(), "-Inf");
}

#[test]
fn number_text_of_large_and_small_numbers() {
    let texts: Vec<String> = [10.0, 5000.0, 100000.0, 123456789.0, 1e21, 1e-7, 2.5e-10, 1e300]
        .iter()
        .map(|value| float(*value).to_string())
        .collect();
    assert_eq!(
        texts,
        vec![
            "10",
            "5000",
            "100000",
            "123456789",
            "1.0E+21",
            "0.0000001",
            "0.00000000025",
            "1.0E+300"
        ]
    );
}

#[test]
fn number_text_reads_back_as_the_same_number() {
    for value in [0.1, 0.1 + 0.2, 1.0 / 3.0, 123456.789, 2.5e-7, 1e21, 1e300, 5e-324, f64::MAX] {
        let text = float(value).to_string();
        assert_eq!(text.parse::<f64>().unwrap(), value, "{}", text);
    }
}

#[test]
fn equality_of_numbers_is_by_bit_pattern() {
    assert!(Literal::Number(float(1.0)).equals(&Literal::Number(float(1.0))));
    assert!(!Literal::Number(float(0.0)).equals(&Literal::Number(float(-0.0))));
    assert!(Literal::Number(float(f64::NAN)).equals(&Literal::Number(float(f64::NAN))));
    assert!(!Literal::Number(float(1.0)).equals(&Literal::Number(float(2.0))));
}

#[test]
fn decimal_notation() {
    assert_eq!(decimal(0), "0");
    assert_eq!(decimal(7), "7");
    assert_eq!(decimal(10), "10");
    assert_eq!(decimal(255), "255");
    assert_eq!(decimal(1234567890), "1234567890");
}

#[test]
fn a_text_suits_where_it_reads_back_and_is_plain_if_asked() {
    let bits = 10.0f64.to_bits();
    assert!(suits_text(bits, "10", Some(bits), true));
    assert!(suits_text(bits, "10", Some(bits), false));
    assert!(!suits_text(bits, "1.0E+1", Some(bits), true));
    assert!(suits_text(bits, "1.0E+1", Some(bits), false));
    assert!(!suits_text(bits, "10", Some(bits + 1), true));
    assert!(!suits_text(bits, "10", Some(bits + 1), false));
    assert!(!suits_text(bits, "10", None, true));
    assert!(!suits_text(bits, "10", None, false));
}

#[test]
fn every_number_of_digits_is_tried_for_the_text() {
    assert_eq!(float(9.0).to_string(), "9");
    assert_eq!(float(8.0).to_string(), "8");
    assert_eq!(float(12345678901234567.0).to_string(), "12345678901234568");
    assert_eq!(float(0.1234567890123456).to_string(), "0.1234567890123456");
}

#[test]
fn a_clock_before_the_epoch_reads_zero() {
    assert_eq!(reading_of(Some(1_700_000_000)), 1_700_000_000);
    assert_eq!(reading_of(Some(0)), 0);
    assert_eq!(reading_of(None), 0);
}
