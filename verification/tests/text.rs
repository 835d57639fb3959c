use odoo_printer_manager::text::{
    chars_of, contains, ends_with, format_decimal, format_hex4, parse_hex_u16, parse_size,
    same_text, spells, tail_after_last, NumberError,
};
use std::num::IntErrorKind;

const SAMPLES: [&str; 24] = [
    "", "0", "7", "+7", "-7", "+", "++1", "007", "12a", "a12", " 1", "1 ", "1_000", "04b8", "FFFF",
    "ffff", "10000", "+0fe6", "g", "0x1f", "65535", "65536", "\u{661}", "18446744073709551615",
];

#[test]
fn hexadecimal_identifiers() {
    assert_eq!(parse_hex_u16("04b8"), Some(0x04b8));
    assert_eq!(parse_hex_u16("4B43"), Some(0x4b43));
    assert_eq!(parse_hex_u16("+1f"), Some(0x1f));
    assert_eq!(parse_hex_u16("0000000001"), Some(1));
    assert_eq!(parse_hex_u16("ffff"), Some(0xffff));
    assert_eq!(parse_hex_u16("10000"), None);
    assert_eq!(parse_hex_u16(""), None);
    assert_eq!(parse_hex_u16("+"), None);
    assert_eq!(parse_hex_u16("-1"), None);
    assert_eq!(parse_hex_u16("0x1f"), None);
    assert_eq!(parse_hex_u16("12g"), None);
}

#[test]
fn hexadecimal_identifiers_are_read_as_std_reads_them() {
    for s in SAMPLES {
        assert_eq!(parse_hex_u16(s), u16::from_str_radix(s, 16).ok(), "{:?}", s);
    }
}

#[test]
fn decimal_sizes() {
    assert_eq!(parse_size("3"), Ok(3));
    assert_eq!(parse_size("+12"), Ok(12));
    assert_eq!(parse_size("0010"), Ok(10));
    assert_eq!(parse_size(&usize::MAX.to_string()), Ok(usize::MAX));
    assert_eq!(parse_size(""), Err(NumberError::Empty));
    assert_eq!(parse_size("+"), Err(NumberError::InvalidDigit));
    assert_eq!(parse_size("-3"), Err(NumberError::InvalidDigit));
    assert_eq!(parse_size("3 "), Err(NumberError::InvalidDigit));
    assert_eq!(parse_size("1f"), Err(NumberError::InvalidDigit));
    assert_eq!(parse_size("99999999999999999999999999"), Err(NumberError::TooLarge));
    assert_eq!(parse_size("99999999999999999999999999x"), Err(NumberError::TooLarge));
    assert_eq!(parse_size("9x9999999999999999999999999"), Err(NumberError::InvalidDigit));
}

#[test]
fn decimal_sizes_are_read_as_std_reads_them() {
    let more = [
        "99999999999999999999999999x",
        "9x9999999999999999999999999",
        "18446744073709551616",
        "+18446744073709551615",
        "184467440737095516150",
        "-",
        "+-1",
    ];
    for s in SAMPLES.iter().chain(more.iter()) {
        let ours = parse_size(s);
        let theirs = s.parse::<usize>();
        assert_eq!(ours.ok(), theirs.clone().ok(), "{:?}", s);
        if let Err(e) = theirs {
            let kind = match e.kind() {
                IntErrorKind::Empty => NumberError::Empty,
                IntErrorKind::InvalidDigit => NumberError::InvalidDigit,
                IntErrorKind::PosOverflow => NumberError::TooLarge,
                other => panic!("{:?} gives {:?}", s, other),
            };
            assert_eq!(ours, Err(kind), "{:?}", s);
            assert_eq!(kind.message(), e.to_string(), "{:?}", s);
        }
    }
}

#[test]
fn number_failures_in_words() {
    assert_eq!(NumberError::Empty.message(), "cannot parse integer from empty string");
    assert_eq!(NumberError::InvalidDigit.message(), "invalid digit found in string");
    assert_eq!(NumberError::TooLarge.message(), "number too large to fit in target type");
}

#[test]
fn sizes_in_decimal() {
    assert_eq!(format_decimal(0), "0");
    assert_eq!(format_decimal(7), "7");
    assert_eq!(format_decimal(10), "10");
    assert_eq!(format_decimal(1203), "1203");
    for n in [9usize, 99, 100, 101, 65535, 9_007_199_254_740_993, usize::MAX] {
        assert_eq!(format_decimal(n), n.to_string());
    }
}

#[test]
fn four_hexadecimal_digits() {
    assert_eq!(format_hex4(0x04b8), "04b8");
    assert_eq!(format_hex4(0), "0000");
    assert_eq!(format_hex4(0xffff), "ffff");
    assert_eq!(format_hex4(0x4b43), "4b43");
    assert_eq!(format_hex4(0x000a), "000a");
    for v in [1u16, 15, 16, 255, 256, 4095, 4096, 0x1fc9, 0xabcd] {
        assert_eq!(format_hex4(v), format!("{:04x}", v));
    }
}

#[test]
fn suffixes() {
    assert!(ends_with("epos-print", "epos-print"));
    assert!(ends_with("ns:epos-print", "epos-print"));
    assert!(!ends_with("epos-print2", "epos-print"));
    assert!(!ends_with("print", "epos-print"));
    assert!(ends_with("abc", ""));
    assert!(ends_with("", ""));
    assert!(!ends_with("", "a"));
}

#[test]
fn substrings() {
    assert!(contains("linux foundation", "linux"));
    assert!(contains("the usb hub", "usb hub"));
    assert!(contains("abc", ""));
    assert!(contains("", ""));
    assert!(!contains("", "a"));
    assert!(!contains("usb-hub", "usb hub"));
    assert!(contains("aab", "ab"));
    assert!(!contains("ab", "abc"));
    assert!(contains("caf\u{e9} pos", "pos"));
    for hay in ["", "a", "abcabd", "xprinter x", "\u{e9}\u{e9}a"] {
        for needle in ["", "a", "abd", "x", "\u{e9}a", "abcabda"] {
            assert_eq!(contains(hay, needle), hay.contains(needle), "{:?} {:?}", hay, needle);
            assert_eq!(ends_with(hay, needle), hay.ends_with(needle), "{:?} {:?}", hay, needle);
        }
    }
}

#[test]
fn what_follows_the_last_delimiter() {
    let text = |v: Vec<char>| v.into_iter().collect::<String>();
    assert_eq!(text(tail_after_last("{urn:x}text", '}')), "text");
    assert_eq!(text(tail_after_last("text", '}')), "text");
    assert_eq!(text(tail_after_last("a}b}c", '}')), "c");
    assert_eq!(text(tail_after_last("a}", '}')), "");
    assert_eq!(text(tail_after_last("", '}')), "");
    for s in ["", "}", "a}b", "}}", "x}y}", "plain"] {
        assert_eq!(text(tail_after_last(s, '}')), s.split('}').last().unwrap_or(""));
    }
}

#[test]
fn comparisons() {
    assert!(same_text("feed", "feed"));
    assert!(!same_text("feed", "Feed"));
    assert!(!same_text("feed", "feeds"));
    assert!(same_text("", ""));
    assert_eq!(chars_of("a\u{e9}"), vec!['a', '\u{e9}']);
    assert!(spells(&vec!['o', 'k'], "ok"));
    assert!(!spells(&vec!['o', 'k'], "ko"));
    assert!(!spells(&vec![], "ko"));
}
