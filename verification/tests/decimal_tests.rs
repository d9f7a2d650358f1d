use i3f::text::{chars_of, parse_u32, split_text, string_of, to_lower, trim};
use i3f::Decimal;

#[test]
fn decimal_reads_and_writes_numbers() {
    for (text, canonical) in [
        ("0", "0"),
        ("41.6", "41.6"),
        ("7.50", "7.5"),
        ("100.0", "100"),
        (".5", "0.5"),
        ("5.", "5"),
        ("+3", "3"),
        ("-0.25", "-0.25"),
        ("-0", "0"),
        ("-0.000", "0"),
        ("0.000000001", "0.000000001"),
        ("0.0000000010000", "0.000000001"),
        ("00012.0340", "12.034"),
        ("18446744073709551615", "18446744073709551615"),
        ("1844674407370955161.5", "1844674407370955161.5"),
        ("0.005", "0.005"),
    ] {
        let d = Decimal::from_str(text).unwrap();
        assert_eq!(d.to_string(), canonical, "{}", text);
        assert_eq!(Decimal::from_str(canonical).unwrap(), d);
    }
}

#[test]
fn decimal_rejects_other_texts() {
    for text in [
        "", "+", "-", ".", "-.", "1e5", "inf", "NaN", "1,5", "1.2.3", " 1", "1 ", "0x10", "--1",
        "18446744073709551616", "1.0000000001", "1844674407370955161.55", "١",
    ] {
        assert_eq!(Decimal::from_str(text), None, "{}", text);
    }
}

#[test]
fn decimal_parts() {
    let d = Decimal::from_str("-12.50").unwrap();
    assert!(d.is_negative());
    assert_eq!(d.mantissa(), 125);
    assert_eq!(d.scale(), 1);
    assert_eq!(d.magnitude(), 12_500_000_000);
    assert_eq!(d.signed_billionths(), -12_500_000_000);
    assert_eq!(Decimal::from_u32(90), Decimal::from_str("90").unwrap());
    assert_eq!(Decimal::from_u32(90).signed_billionths(), 90_000_000_000);
    assert_eq!(Decimal::new(false, 4160, 2).unwrap(), Decimal::from_str("41.6").unwrap());
    assert_eq!(Decimal::new(true, 0, 3).unwrap(), Decimal::from_str("0").unwrap());
    assert_eq!(Decimal::new(true, 5, 9).unwrap().to_string(), "-0.000000005");
    assert_eq!(Decimal::new(false, 5, 10), None);
    assert_eq!(Decimal::new(false, 50, 10).unwrap().to_string(), "0.000000005");
}

#[test]
fn text_helpers() {
    let v = chars_of("  Hello, World\u{3000}");
    assert_eq!(string_of(&trim(&v)), "Hello, World");
    assert_eq!(string_of(&to_lower(&v)), "  hello, world\u{3000}");
    assert_eq!(string_of(&to_lower(&chars_of("ÀZ[`@"))), "Àz[`@");
    let parts = split_text(&chars_of("a,,b,"), ',');
    let parts: Vec<String> = parts.iter().map(string_of).collect();
    assert_eq!(parts, vec!["a", "", "b", ""]);
    assert_eq!(split_text(&chars_of(""), ',').len(), 1);
    assert_eq!(parse_u32(&chars_of("4294967295")), Some(4294967295));
    assert_eq!(parse_u32(&chars_of("4294967296")), None);
    assert_eq!(parse_u32(&chars_of("+0")), Some(0));
    assert_eq!(parse_u32(&chars_of("0000000000000000000000012")), Some(12));
    assert_eq!(parse_u32(&chars_of("")), None);
    assert_eq!(parse_u32(&chars_of("+")), None);
    assert_eq!(parse_u32(&chars_of("-1")), None);
    assert_eq!(parse_u32(&chars_of("1 ")), None);
    assert_eq!(parse_u32(&chars_of("99999999999999999999999999")), None);
}
