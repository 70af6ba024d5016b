use frame_conversion::text::{
    char_is_whitespace, chars_of, find_char, join_strings, parse_i32, parse_u32, read_digits,
    read_number_positive, str_eq, trim, u64_to_string,
};
use frame_conversion::timecode::{format_seconds, parse_time};

#[test]
fn timecodes_are_read_into_milliseconds() {
    assert_eq!(parse_time("00:00:05"), Some(5_000));
    assert_eq!(parse_time("00:00:15"), Some(15_000));
    assert_eq!(parse_time("01:02:03"), Some(3_723_000));
    assert_eq!(parse_time("01:02:03.5"), Some(3_723_500));
    assert_eq!(parse_time("0:0:0.001"), Some(1));
    assert_eq!(parse_time("0:0:0.0019"), Some(1));
    assert_eq!(parse_time("0:0:1.25"), Some(1_250));
    assert_eq!(parse_time("0:90:0"), Some(5_400_000));
    assert_eq!(parse_time("100:00:00"), Some(360_000_000));
    assert_eq!(
        parse_time("999999999:999999999:999999999.999"),
        Some(999_999_999 * 3_600_000 + 999_999_999 * 60_000 + 999_999_999 * 1000 + 999)
    );
}

#[test]
fn malformed_timecodes_are_refused() {
    for bad in [
        "", "5", "00:05", "0:0:0:0", "::", "a:b:c", "00:00:", ":00:00", "00::00", "00:00:5.",
        "00:00:.5", "00:00:5.x", "-1:00:00", "00:00:1e3", " 00:00:05", "00:00:05 ",
        "1000000000:00:00", "00:00:05.5.5",
    ] {
        assert_eq!(parse_time(bad), None, "{:?}", bad);
    }
}

#[test]
fn seconds_are_written_with_three_decimals() {
    assert_eq!(format_seconds(10_000), "10.000");
    assert_eq!(format_seconds(0), "0.000");
    assert_eq!(format_seconds(1), "0.001");
    assert_eq!(format_seconds(61_250), "61.250");
    assert_eq!(format_seconds(999), "0.999");
    assert_eq!(format_seconds(1_205), "1.205");
    assert_eq!(format_seconds(u64::MAX), "18446744073709551.615");
}

#[test]
fn trimming_removes_unicode_whitespace() {
    assert_eq!(trim("  a b  "), "a b");
    assert_eq!(trim("\t\n\r x \u{b}\u{c}"), "x");
    assert_eq!(trim("\u{85}\u{a0}\u{1680}\u{2000}\u{200a}\u{2028}\u{2029}\u{202f}\u{205f}\u{3000}y"), "y");
    assert_eq!(trim("\u{200b}z\u{200b}"), "\u{200b}z\u{200b}");
    assert_eq!(trim(""), "");
    assert_eq!(trim("   "), "");
    assert_eq!(trim("é"), "é");
    for c in ['\u{0}', '\u{8}', '\u{9}', '\u{d}', '\u{e}', ' ', '\u{a0}', '\u{200b}', '\u{feff}', 'a'] {
        assert_eq!(char_is_whitespace(c), c.is_whitespace(), "{:?}", c);
    }
}

#[test]
fn whitespace_matches_the_standard_set() {
    let mut n = 0u32;
    while n <= 0x3100 {
        if let Some(c) = char::from_u32(n) {
            assert_eq!(char_is_whitespace(c), c.is_whitespace(), "U+{:04X}", n);
        }
        n += 1;
    }
}

#[test]
fn integers_are_read_as_the_standard_library_reads_them() {
    for text in [
        "0", "7", "+7", "-7", "007", "-0", "+0", "2147483647", "2147483648", "-2147483648",
        "-2147483649", "", "+", "-", "--1", "+-1", "1 ", " 1", "1_000", "12a", "٣",
        "99999999999999999999",
    ] {
        assert_eq!(parse_i32(text), text.parse::<i32>().ok(), "{:?}", text);
    }
    for text in [
        "0", "7", "+7", "-7", "-0", "4294967295", "4294967296", "", "+", "1.0", "0x10",
        "99999999999999999999",
    ] {
        assert_eq!(parse_u32(text), text.parse::<u32>().ok(), "{:?}", text);
    }
}

#[test]
fn decimal_notation() {
    for n in [0u64, 1, 9, 10, 11, 99, 100, 12_345, u32::MAX as u64, u64::MAX] {
        assert_eq!(u64_to_string(n), n.to_string());
    }
}

#[test]
fn numbers_are_told_from_other_text() {
    for (text, positive) in [
        ("12.5", true),
        ("1e3", true),
        ("1E3", true),
        ("2.5e-3", true),
        ("+7", true),
        (".5", true),
        ("5.", true),
        ("007", true),
        ("0.001", true),
        ("1e+10", true),
        ("inf", true),
        ("+Infinity", true),
        ("INF", true),
        ("0", false),
        ("0.0", false),
        ("0e5", false),
        ("-3", false),
        ("-0.00", false),
        ("-.5e2", false),
        ("-inf", false),
        ("nan", false),
        ("NaN", false),
        ("-nan", false),
    ] {
        assert_eq!(read_number_positive(text), Some(positive), "{:?}", text);
    }
    for text in [
        "", "+", "-", ".", "e", "e5", ".e5", "1e", "1e+", "1e-", "1e5.5", "1.2.3", "1..2", "abc",
        "12k", "1 000", " 1", "1 ", "infinit", "infinityy", "na", "nane", "++1", "1e++1", "0x10",
        "1_000", "٣",
    ] {
        assert_eq!(read_number_positive(text), None, "{:?}", text);
    }
}

#[test]
fn numbers_are_read_as_the_standard_library_reads_them() {
    let samples = [
        "1", "0", "-1", "+1", "1.", ".1", ".", "1e1", "1E1", "1e", "e1", "1e-1", "1e+1", "1e1.0",
        "inf", "Inf", "iNfInItY", "infinity", "-infinity", "+inf", "in", "nan", "NAN", "+nan",
        "n", "", "+", "-", "1 ", " 1", "1,5", "1.5.5", "00.00", "-00.00e00", "123456789012345678901234567890",
        "0.000000000000000000000000000001", "1e308", "9e-300", "--1", "+-1", "1e--1", "٣.٥",
        "1f", "1.0f32", "0b1", "1__0",
    ];
    for text in samples {
        let expected = text.parse::<f64>().ok().map(|x| x > 0.0);
        assert_eq!(read_number_positive(text), expected, "{:?}", text);
    }
}

#[test]
fn string_helpers() {
    assert!(str_eq("copy", "copy"));
    assert!(!str_eq("copy", "Copy"));
    assert!(!str_eq("copy", "copy "));
    assert!(str_eq("", ""));
    assert!(str_eq("é→", "é→"));
    assert_eq!(chars_of("a→b"), vec!['a', '→', 'b']);
    let v = chars_of("a:b:c");
    assert_eq!(find_char(&v, 0, ':'), 1);
    assert_eq!(find_char(&v, 2, ':'), 3);
    assert_eq!(find_char(&v, 4, ':'), 5);
    assert_eq!(read_digits(&v, 0, 1, 100), None);
    let d = chars_of("x0420y");
    assert_eq!(read_digits(&d, 1, 5, 1_000), Some(420));
    assert_eq!(read_digits(&d, 1, 5, 419), None);
    assert_eq!(read_digits(&d, 1, 1, 419), None);
    assert_eq!(read_digits(&d, 0, 5, 1_000), None);
    let parts = vec!["a".to_string(), "".to_string(), "c".to_string()];
    assert_eq!(join_strings(&parts, ","), "a,,c");
    assert_eq!(join_strings(&parts[..1].to_vec(), ", "), "a");
    assert_eq!(join_strings(&Vec::new(), ","), "");
}
