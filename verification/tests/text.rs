use light_manager::text::{is_blank, parse_u64, push_decimal, starts_with};

#[test]
fn white_space_is_that_of_unicode() {
    let listed: Vec<char> = (0..=0x10FFFF)
        .filter_map(char::from_u32)
        .filter(|c| is_blank(&c.to_string()))
        .collect();

    let expected: Vec<char> = "\u{9}\u{a}\u{b}\u{c}\u{d}\u{20}\u{85}\u{a0}\u{1680}\u{2000}\u{2001}\
        \u{2002}\u{2003}\u{2004}\u{2005}\u{2006}\u{2007}\u{2008}\u{2009}\u{200a}\u{2028}\u{2029}\
        \u{202f}\u{205f}\u{3000}"
        .chars()
        .collect();
    assert_eq!(listed, expected);
}

#[test]
fn blank_texts_hold_white_space_only() {
    assert!(is_blank(""));
    assert!(is_blank(" \t\r\n"));
    assert!(!is_blank(" x "));
}

#[test]
fn numbers_parse_as_the_standard_library_does() {
    for text in [
        "0", "43", "+43", "007", "18446744073709551615", "18446744073709551616",
        "99999999999999999999999", "", "+", "-1", "1 ", " 1", "++1", "1_0", "0x10", "٣",
    ] {
        assert_eq!(parse_u64(text), text.parse::<u64>().ok(), "{text:?}");
    }
}

#[test]
fn decimals_are_printed_as_the_standard_library_does() {
    for n in [0, 1, 9, 10, 43, 100, 65_535, u64::MAX as u128, u128::MAX] {
        let mut text = "n=".to_string();
        push_decimal(&mut text, n);
        assert_eq!(text, format!("n={n}"));
    }
}

#[test]
fn prefixes_are_found() {
    assert!(starts_with("app.log.1", "app.log"));
    assert!(starts_with("app.log", "app.log"));
    assert!(starts_with("é1", "é"));
    assert!(!starts_with("app.lo", "app.log"));
    assert!(!starts_with("bapp.log", "app.log"));
}
