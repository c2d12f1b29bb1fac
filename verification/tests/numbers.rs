use seismology::numbers::{
    check_float_syntax, char_is_whitespace, parse_i32_range, parse_unsigned_range,
    FloatErrorKind, IntErrorKind,
};

#[test]
fn float_syntax_accepts_std_forms() {
    for t in ["70.2043", "-161.0713", "24", "2E-04", "6.28316E8", ".5", "5.", "+1e+3", "inf",
        "-Infinity", "NaN"] {
        assert_eq!(check_float_syntax(t), Ok(()), "{}", t);
        assert!(t.parse::<f64>().is_ok());
    }
}

#[test]
fn float_syntax_rejects_what_std_rejects() {
    assert_eq!(check_float_syntax(""), Err(FloatErrorKind::Empty));
    for t in [".", "e5", "1e", "1.2.3", " 1", "1 ", "0x10", "1_0", "--1", "infin"] {
        assert_eq!(check_float_syntax(t), Err(FloatErrorKind::Invalid), "{}", t);
        assert!(t.parse::<f64>().is_err());
    }
}

#[test]
fn integers_read_like_std() {
    let b = b"+42";
    assert_eq!(parse_unsigned_range(b, 0, 3, u32::MAX as u64), Ok(42));
    let b = b"4294967296";
    assert_eq!(
        parse_unsigned_range(b, 0, b.len(), u32::MAX as u64),
        Err(IntErrorKind::PosOverflow)
    );
    let b = b"-2147483648";
    assert_eq!(parse_i32_range(b, 0, b.len()), Ok(i32::MIN));
    let b = b"-2147483649";
    assert_eq!(parse_i32_range(b, 0, b.len()), Err(IntErrorKind::NegOverflow));
    let b = b"-";
    assert_eq!(parse_i32_range(b, 0, 1), Err(IntErrorKind::InvalidDigit));
    assert_eq!(parse_i32_range(b, 0, 0), Err(IntErrorKind::Empty));
    let b = b"9a99999999999";
    assert_eq!(
        parse_unsigned_range(b, 0, b.len(), u32::MAX as u64),
        Err(IntErrorKind::InvalidDigit)
    );
}

#[test]
fn whitespace_is_unicode_white_space() {
    for c in [' ', '\t', '\n', '\u{a0}', '\u{3000}', '\u{2028}'] {
        assert!(char_is_whitespace(c));
        assert!(c.is_whitespace());
    }
    for c in ['a', '=', '"', '\u{200b}'] {
        assert!(!char_is_whitespace(c));
        assert!(!c.is_whitespace());
    }
}
