use launch_pad::text::{
    begins_with, characters, drop_white_space, has_space, line_end, parse_decimal, push_quoted,
    skip_white_space, white_space,
};

#[test]
fn white_space_is_the_unicode_property() {
    for code in 0..=0x10ffff {
        if let Some(c) = char::from_u32(code) {
            assert_eq!(white_space(c), c.is_whitespace(), "{code:x}");
        }
    }
}

#[test]
fn ranges_agree_with_the_standard_library() {
    for text in ["", " ", "a", " a", "a\t", "\u{3000}a b\u{85}", " \r\n "] {
        let chars = characters(text);
        let end = chars.len();
        let start = skip_white_space(&chars, 0, end);
        let stop = drop_white_space(&chars, start, end);
        let trimmed: String = chars[start..stop].iter().collect();
        assert_eq!(trimmed, text.trim());
        let from: String = chars[start..].iter().collect();
        assert_eq!(from, text.trim_start());
    }
}

#[test]
fn numbers_agree_with_the_standard_library() {
    let texts = [
        "", "+", "-", "0", "7", "+7", "-7", "007", "1a", "a1", " 1", "1 ", "18446744073709551615",
        "18446744073709551616", "99999999999999999999", "+0", "1_000",
    ];
    for text in texts {
        let chars = characters(text);
        assert_eq!(
            parse_decimal(&chars, 0, chars.len()),
            text.parse::<u64>().ok(),
            "{text}"
        );
    }
}

#[test]
fn lines_end_in_line_feeds() {
    let chars = characters("ab\n\ncd");
    assert_eq!(line_end(&chars, 0), 2);
    assert_eq!(line_end(&chars, 3), 3);
    assert_eq!(line_end(&chars, 4), 6);
    assert_eq!(line_end(&chars, 6), 6);
}

#[test]
fn prefixes() {
    let text = characters("State: Z");
    assert!(begins_with(&text, 0, 8, &characters("State:")));
    assert!(!begins_with(&text, 0, 5, &characters("State:")));
    assert!(!begins_with(&text, 1, 8, &characters("State:")));
    assert!(begins_with(&text, 3, 3, &characters("")));
}

#[test]
fn quotes_surround_what_holds_a_space() {
    let mut text = String::from("=");
    push_quoted(&mut text, "a b");
    push_quoted(&mut text, "c\td");
    assert_eq!(text, "=\"a b\"c\td");
    assert!(has_space("a b"));
    assert!(!has_space("a\u{a0}b"));
}
