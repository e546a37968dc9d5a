use heretek::text::{
    chars_of, digits, hex, is_whitespace, parse_number, parse_unsigned, split_whitespace,
    starts_with,
};

#[test]
fn white_space_is_the_unicode_property() {
    for n in 0..=0x10ffffu32 {
        if let Some(c) = char::from_u32(n) {
            assert_eq!(is_whitespace(c), c.is_whitespace(), "{:?}", c);
        }
    }
}

#[test]
fn words_are_separated_by_any_white_space() {
    assert_eq!(split_whitespace("hexdump 0x10 32"), vec!["hexdump", "0x10", "32"]);
    assert_eq!(split_whitespace("  a\t\u{3000}b\n"), vec!["a", "b"]);
    assert_eq!(split_whitespace("\u{e9}t\u{e9}"), vec!["\u{e9}t\u{e9}"]);
    assert_eq!(split_whitespace(""), Vec::<String>::new());
    assert_eq!(split_whitespace(" \t "), Vec::<String>::new());
    for s in ["a b", " a  b ", "a", "\u{a0}x\u{2003}y\u{2028}", "x\u{200b}y z"] {
        let expected: Vec<&str> = s.split_whitespace().collect();
        assert_eq!(split_whitespace(s), expected);
    }
}

#[test]
fn prefixes() {
    assert!(starts_with("file a.out", "file"));
    assert!(starts_with("files", "file"));
    assert!(starts_with("x", ""));
    assert!(!starts_with("fil", "file"));
    assert!(!starts_with(" file", "file"));
}

#[test]
fn characters() {
    assert_eq!(chars_of("a\u{e9}\u{1f600}"), vec!['a', '\u{e9}', '\u{1f600}']);
}

#[test]
fn numbers_in_both_radices() {
    assert_eq!(parse_number("0x10"), Some(16));
    assert_eq!(parse_number("10"), Some(10));
    assert_eq!(parse_number("0xfFfFfFfFfFfFfFfF"), Some(u64::MAX));
    assert_eq!(parse_number("18446744073709551615"), Some(u64::MAX));
    assert_eq!(parse_number("+7"), Some(7));
    assert_eq!(parse_number("0x+7"), Some(7));
    assert_eq!(parse_number("007"), Some(7));
}

#[test]
fn texts_that_are_no_numbers() {
    for s in [
        "",
        "+",
        "-1",
        "0x",
        "0x+",
        "0xg",
        "0X10",
        "1_000",
        " 1",
        "ff",
        "++1",
        "\u{661}",
        "18446744073709551616",
        "0x10000000000000000",
    ] {
        assert_eq!(parse_number(s), None, "{:?}", s);
    }
}

#[test]
fn numbers_read_as_by_the_standard_library() {
    for s in ["0", "1", "+1", "-0", "z", "Z9", "", "+", "99999999999999999999", "7f", "\u{e9}"] {
        for radix in [2u32, 10, 16, 36] {
            assert_eq!(parse_unsigned(s, radix as u64), u64::from_str_radix(s, radix).ok());
        }
    }
}

#[test]
fn addresses_are_written_with_two_digits_at_least() {
    assert_eq!(hex(0), "0x00");
    assert_eq!(hex(10), "0x0a");
    assert_eq!(hex(0x7fff_ffff_e000), "0x7fffffffe000");
    for n in [0, 1, 15, 16, 17, 255, 256, 0xdead_beef, u64::MAX] {
        assert_eq!(hex(n), format!("0x{:02x}", n));
        assert_eq!(digits(n, 10), n.to_string());
        assert_eq!(parse_number(&hex(n)), Some(n));
        assert_eq!(parse_number(&digits(n, 10)), Some(n));
    }
}
