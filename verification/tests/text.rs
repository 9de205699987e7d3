use sportspulse::text::{chars_of, parse_u32, parse_u64, to_lowercase, trim, u64_to_string};

#[test]
fn decimal_numerals() {
    assert_eq!(u64_to_string(0), "0");
    assert_eq!(u64_to_string(1205), "1205");
    assert_eq!(u64_to_string(u64::MAX), "18446744073709551615");
    assert_eq!(parse_u64(&chars_of("18446744073709551615")), Some(u64::MAX));
    assert_eq!(parse_u64(&chars_of("18446744073709551616")), None);
    assert_eq!(parse_u64(&chars_of("+42")), Some(42));
    assert_eq!(parse_u64(&chars_of("+")), None);
    assert_eq!(parse_u64(&chars_of("")), None);
    assert_eq!(parse_u64(&chars_of("-1")), None);
    assert_eq!(parse_u64(&chars_of(" 1")), None);
    assert_eq!(parse_u32(&chars_of("4294967295")), Some(u32::MAX));
    assert_eq!(parse_u32(&chars_of("4294967296")), None);
    for n in [0u64, 7, 10, 999, 123456789] {
        assert_eq!(parse_u64(&chars_of(&u64_to_string(n))), Some(n));
    }
}

#[test]
fn lowercase_and_trim() {
    assert_eq!(to_lowercase("INDIA Women"), "india women");
    assert_eq!(to_lowercase("ΣΑΣ"), "σας");
    let t: String = trim(&chars_of(" \u{2003}x y\t")).into_iter().collect();
    assert_eq!(t, "x y");
}
