use oldgames_parser::float_text::is_float_text;
use oldgames_parser::text::{
    chars_eq, contains_chars, format_i32, parse_i32, str_chars, trim_chars,
};

fn chars(s: &str) -> Vec<char> {
    s.chars().collect()
}

#[test]
fn parse_i32_accepts_signed_decimals() {
    assert_eq!(parse_i32(&chars("123")), Some(123));
    assert_eq!(parse_i32(&chars("-5")), Some(-5));
    assert_eq!(parse_i32(&chars("+7")), Some(7));
    assert_eq!(parse_i32(&chars("007")), Some(7));
    assert_eq!(parse_i32(&chars("2147483647")), Some(i32::MAX));
    assert_eq!(parse_i32(&chars("-2147483648")), Some(i32::MIN));
}

#[test]
fn parse_i32_rejects_what_str_parse_rejects() {
    for s in ["", "-", "+", "12a", " 1", "1 ", "2147483648", "-2147483649", "99999999999999999999", "１２"] {
        assert_eq!(parse_i32(&chars(s)), s.parse::<i32>().ok(), "input {:?}", s);
        assert_eq!(parse_i32(&chars(s)), None);
    }
}

#[test]
fn format_i32_writes_decimal() {
    assert_eq!(format_i32(0), chars("0"));
    assert_eq!(format_i32(-42), chars("-42"));
    assert_eq!(format_i32(1000), chars("1000"));
    assert_eq!(format_i32(i32::MIN), chars("-2147483648"));
    assert_eq!(format_i32(i32::MAX), chars("2147483647"));
}

#[test]
fn format_then_parse_gives_back_the_number() {
    for n in [0, 1, -1, 9, 10, -10, 12345, i32::MIN, i32::MAX, 2000000000] {
        assert_eq!(parse_i32(&format_i32(n)), Some(n));
        assert_eq!(format_i32(n), chars(&n.to_string()));
    }
}

#[test]
fn trim_removes_unicode_whitespace() {
    assert_eq!(trim_chars(&chars("  a b \n")), chars("a b"));
    assert_eq!(trim_chars(&chars("\u{a0}\u{3000}x\u{2028}")), chars("x"));
    assert_eq!(trim_chars(&chars(" \t ")), chars(""));
    assert_eq!(trim_chars(&chars("")), chars(""));
    for s in ["  a b \n", "\u{a0}x\u{85}", "\u{200b}y", "z"] {
        assert_eq!(trim_chars(&chars(s)), chars(s.trim()));
    }
}

#[test]
fn trim_twice_is_trim_once() {
    let once = trim_chars(&chars(" \r\n a  b \t"));
    assert_eq!(trim_chars(&once), once);
}

#[test]
fn substring_search() {
    assert!(contains_chars(&chars("abcdef"), &chars("cde")));
    assert!(contains_chars(&chars("abc"), &chars("")));
    assert!(!contains_chars(&chars("abc"), &chars("abcd")));
    assert!(!contains_chars(&chars("abc"), &chars("ac")));
    assert!(contains_chars(&chars("/img/nocover-rus.gif"), &chars("nocover-rus.gif")));
}

#[test]
fn string_conversions() {
    assert_eq!(str_chars("Привет"), chars("Привет"));
    assert!(chars_eq(&chars("ab"), &chars("ab")));
    assert!(!chars_eq(&chars("ab"), &chars("abc")));
}

#[test]
fn float_texts_are_those_f32_reads() {
    for s in [
        "8.3", "7.", "0.5", ".5", "10", "1e5", "1E-3", "2.5e+7", "+inf", "-INF", "NaN", "Infinity",
        "-0", "7.5.1", ".", "", "e5", "1e", "1e+", "١٢", "inf ", "infin", "+", "1..2", "--1", "0x10",
    ] {
        assert_eq!(is_float_text(&chars(s)), s.parse::<f32>().is_ok(), "input {:?}", s);
    }
}
