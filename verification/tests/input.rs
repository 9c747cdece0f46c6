use rust_programming_book::input::{is_whitespace, parse_usize, trim};

#[test]
fn white_space_is_what_the_standard_library_calls_so() {
    for code in 0..=0x10FFFFu32 {
        if let Some(c) = char::from_u32(code) {
            assert_eq!(is_whitespace(c), c.is_whitespace(), "U+{:04X}", code);
        }
    }
}

#[test]
fn white_space_is_cut_from_both_ends() {
    assert_eq!(trim("  hello  "), "hello");
    assert_eq!(trim("\thello world\r\n"), "hello world");
    assert_eq!(trim("hello"), "hello");
    assert_eq!(trim(""), "");
    assert_eq!(trim(" \n\t "), "");
    assert_eq!(trim("\u{2003}Зд \u{a0}равс\u{3000}\u{85}"), "Зд \u{a0}равс");
    assert_eq!(trim("\u{200b}x\u{200b}"), "\u{200b}x\u{200b}");
    assert_eq!(trim(" a"), "a");
    assert_eq!(trim("a "), "a");
}

#[test]
fn trim_agrees_with_the_standard_library() {
    let samples = [
        "",
        " ",
        "x",
        " x",
        "x ",
        " x y ",
        "\n\n11\n",
        "\u{1680}\u{2000}\u{200a}a\u{2028}\u{2029}\u{202f}\u{205f}",
        "\u{180e}a\u{180e}",
        "\u{b}\u{c}z\u{1c}",
        "😻 ",
    ];
    for sample in samples {
        assert_eq!(trim(sample), sample.trim(), "{:?}", sample);
    }
}

#[test]
fn decimal_digits_are_a_number() {
    assert_eq!(parse_usize("0"), Some(0));
    assert_eq!(parse_usize("7"), Some(7));
    assert_eq!(parse_usize("11"), Some(11));
    assert_eq!(parse_usize("1234567890"), Some(1234567890));
    assert_eq!(parse_usize("+42"), Some(42));
    assert_eq!(parse_usize("000"), Some(0));
    assert_eq!(parse_usize("0042"), Some(42));
}

#[test]
fn anything_else_is_no_number() {
    assert_eq!(parse_usize(""), None);
    assert_eq!(parse_usize("+"), None);
    assert_eq!(parse_usize("-"), None);
    assert_eq!(parse_usize("-0"), None);
    assert_eq!(parse_usize("++1"), None);
    assert_eq!(parse_usize("1+"), None);
    assert_eq!(parse_usize("abc"), None);
    assert_eq!(parse_usize("12a"), None);
    assert_eq!(parse_usize(" 12"), None);
    assert_eq!(parse_usize("12 "), None);
    assert_eq!(parse_usize("1_000"), None);
    assert_eq!(parse_usize("\u{661}\u{662}"), None);
    assert_eq!(parse_usize("１２"), None);
}

#[test]
fn a_number_beyond_usize_is_no_number() {
    let most = usize::MAX.to_string();
    assert_eq!(parse_usize(&most), Some(usize::MAX));
    assert_eq!(parse_usize(&format!("+{}", most)), Some(usize::MAX));
    assert_eq!(parse_usize(&format!("000{}", most)), Some(usize::MAX));
    assert_eq!(parse_usize(&format!("{}0", most)), None);
    let beyond = format!("{}", usize::MAX as u128 + 1);
    assert_eq!(parse_usize(&beyond), None);
    assert_eq!(parse_usize("99999999999999999999999999999999999999999"), None);
    assert_eq!(parse_usize("99999999999999999999999999999999999999999x"), None);
}

#[test]
fn parse_agrees_with_the_standard_library() {
    let samples = [
        "", "+", "-", "0", "+0", "-0", "1", "+1", "-1", "12", "012", "1 2", "12\n", "a", "1a",
        "18446744073709551615", "18446744073709551616", "4294967295", "4294967296", "٣", "+-1",
    ];
    for sample in samples {
        assert_eq!(parse_usize(sample), sample.parse::<usize>().ok(), "{:?}", sample);
    }
}
