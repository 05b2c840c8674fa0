use tic_tac_toe::input::{chars_of, is_whitespace, parse_decimal, trim};

#[test]
fn whitespace_is_what_std_calls_whitespace() {
    for code in 0..=0x10FFFFu32 {
        if let Some(c) = char::from_u32(code) {
            assert_eq!(is_whitespace(c), c.is_whitespace(), "U+{:04X}", code);
        }
    }
}

#[test]
fn chars_of_lists_every_character() {
    assert_eq!(chars_of(""), Vec::<char>::new());
    assert_eq!(chars_of("a\u{e9}\u{3000}4"), vec!['a', '\u{e9}', '\u{3000}', '4']);
}

#[test]
fn trim_removes_white_space_at_both_ends_only() {
    assert_eq!(trim("  4 \n"), "4");
    assert_eq!(trim("4"), "4");
    assert_eq!(trim(""), "");
    assert_eq!(trim(" \t\r\n"), "");
    assert_eq!(trim("\u{2003}Ann Lee\u{3000}\u{a0}"), "Ann Lee");
    assert_eq!(trim("a  b"), "a  b");
    assert_eq!(trim("\u{e9}t\u{e9} "), "\u{e9}t\u{e9}");
}

#[test]
fn trim_agrees_with_std() {
    let samples = [
        "",
        " ",
        "x",
        " x",
        "x ",
        "\n\n4\n\n",
        "\u{85}1\u{85}",
        "\u{1680}\u{2000}\u{200a}7 8\u{2028}\u{2029}\u{202f}\u{205f}",
        "\u{200b}5\u{200b}",
        "\u{feff} 3",
        "  \u{4e2d}\u{6587}  ",
    ];
    for sample in samples {
        assert_eq!(trim(sample), sample.trim(), "{:?}", sample);
    }
}

#[test]
fn decimal_numbers_are_read_by_value() {
    assert_eq!(parse_decimal("0"), Some(0));
    assert_eq!(parse_decimal("4"), Some(4));
    assert_eq!(parse_decimal("8"), Some(8));
    assert_eq!(parse_decimal("9"), Some(9));
    assert_eq!(parse_decimal("12"), Some(12));
    assert_eq!(parse_decimal("+7"), Some(7));
    assert_eq!(parse_decimal("007"), Some(7));
    assert_eq!(parse_decimal("1234567"), Some(1234567));
    assert_eq!(parse_decimal("0000000000000000000000000000000000000001"), Some(1));
}

#[test]
fn what_is_no_number_is_refused() {
    assert_eq!(parse_decimal(""), None);
    assert_eq!(parse_decimal("+"), None);
    assert_eq!(parse_decimal("-"), None);
    assert_eq!(parse_decimal("-1"), None);
    assert_eq!(parse_decimal("-0"), None);
    assert_eq!(parse_decimal("++1"), None);
    assert_eq!(parse_decimal("1+"), None);
    assert_eq!(parse_decimal(" 4"), None);
    assert_eq!(parse_decimal("4 "), None);
    assert_eq!(parse_decimal("4x"), None);
    assert_eq!(parse_decimal("x4"), None);
    assert_eq!(parse_decimal("1_0"), None);
    assert_eq!(parse_decimal("4.0"), None);
    assert_eq!(parse_decimal("0x4"), None);
    assert_eq!(parse_decimal("\u{664}"), None);
    assert_eq!(parse_decimal("\u{ff14}"), None);
    assert_eq!(parse_decimal("/"), None);
    assert_eq!(parse_decimal(":"), None);
}

#[test]
fn largest_number_is_read_and_the_next_is_refused() {
    let largest = usize::MAX.to_string();
    assert_eq!(parse_decimal(&largest), Some(usize::MAX));
    let mut digits: Vec<u8> = largest.clone().into_bytes();
    let last = digits.len() - 1;
    digits[last] += 1;
    let next = String::from_utf8(digits).unwrap();
    assert_eq!(parse_decimal(&next), None);
    assert_eq!(parse_decimal(&format!("{}0", largest)), None);
    assert_eq!(parse_decimal("340282366920938463463374607431768211456"), None);
    assert_eq!(parse_decimal("99999999999999999999999999x"), None);
}

#[test]
fn parse_decimal_agrees_with_std() {
    let samples = [
        "", "0", "00", "+0", "+", "-", "-3", "3", " 3", "3 ", "+3", "++3", "3+", "38", "a", "3a",
        "a3", "18446744073709551615", "18446744073709551616", "4294967295", "4294967296",
        "+18446744073709551615", "000018446744073709551615", "\u{663}", "1e3", "1,000",
    ];
    for sample in samples {
        assert_eq!(parse_decimal(sample), sample.parse::<usize>().ok(), "{:?}", sample);
    }
    for n in 0..2000usize {
        assert_eq!(parse_decimal(&n.to_string()), Some(n));
    }
}
