use subagent_panel::text::{
    blank, chars_of, comes_before, first_line, same_text, signed_text, take_chars, trim,
    unsigned_text,
};

#[test]
fn trimming_takes_off_white_space_of_every_kind() {
    assert_eq!(trim("  \t a b \u{3000}\n"), "a b");
    assert_eq!(trim("\u{85}\u{a0}\u{1680}x\u{2003}\u{2028}\u{2029}\u{202f}\u{205f}"), "x");
    assert_eq!(trim("\u{200b}x"), "\u{200b}x");
    assert_eq!(trim(""), "");
    assert_eq!(trim(" \r\n"), "");
    assert_eq!(trim(trim("  twice  ")), "twice");
}

#[test]
fn trimming_agrees_with_the_standard_library_on_every_character() {
    let mut code: u32 = 0;
    while code <= 0x10ffff {
        if let Some(c) = char::from_u32(code) {
            let text = format!("{c}x{c}");
            assert_eq!(trim(&text), text.trim(), "code point {code:x}");
        }
        code += 1;
    }
}

#[test]
fn blank_texts_hold_nothing_but_white_space() {
    assert!(blank(""));
    assert!(blank(" \t\r\n\u{2003}"));
    assert!(!blank(" . "));
}

#[test]
fn the_first_line_skips_blank_lines() {
    assert_eq!(first_line("\n  \n  build it  \nsecond"), "build it");
    assert_eq!(first_line("one\r\ntwo"), "one");
    assert_eq!(first_line("\r\n\r\n  last"), "last");
    assert_eq!(first_line("only"), "only");
    assert_eq!(first_line(""), "");
    assert_eq!(first_line(" \n \t\n"), "");
    assert_eq!(first_line("a\rb\nc"), "a\rb");
}

#[test]
fn the_first_line_agrees_with_the_lines_of_the_standard_library() {
    let texts = [
        "", "\n", "\r", "\r\n", "a", "a\n", "\na", " \r\n\u{a0}\nx\r\n", "\r\r\nq", "x\r", "  \r",
        "\u{2028}\n\u{2029}z\ny",
    ];
    for text in texts {
        let expected =
            text.lines().find(|line| !line.trim().is_empty()).unwrap_or(text).trim();
        assert_eq!(first_line(text), expected, "{text:?}");
    }
}

#[test]
fn characters_are_counted_and_not_bytes() {
    assert_eq!(chars_of("aé→"), vec!['a', 'é', '→']);
    assert_eq!(take_chars("é→xyz", 2), "é→");
    assert_eq!(take_chars("é→", 8), "é→");
    assert_eq!(take_chars("abc", 0), "");
    assert_eq!(take_chars("abc", 3), "abc");
}

#[test]
fn numerals_are_decimal() {
    assert_eq!(unsigned_text(0), "0");
    assert_eq!(unsigned_text(7), "7");
    assert_eq!(unsigned_text(1234567890), "1234567890");
    assert_eq!(unsigned_text(u64::MAX), "18446744073709551615");
    assert_eq!(signed_text(-1), "-1");
    assert_eq!(signed_text(i32::MIN), "-2147483648");
    assert_eq!(signed_text(i32::MAX), "2147483647");
    assert_eq!(signed_text(10), "10");
}

#[test]
fn texts_are_ordered_as_the_standard_library_orders_them() {
    let texts = ["", "a", "aa", "ab", "b", "B", "é", "z", "\u{e000}", "\u{10000}", "openai"];
    for left in texts {
        for right in texts {
            assert_eq!(comes_before(left, right), left < right, "{left:?} {right:?}");
            assert_eq!(same_text(left, right), left == right, "{left:?} {right:?}");
        }
    }
}
