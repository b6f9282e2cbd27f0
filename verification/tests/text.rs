use ritual_tray::text::{char_is_whitespace, same_text, to_chars, trim};

#[test]
fn whitespace_agrees_with_std_on_every_char() {
    let mut code: u32 = 0;
    while code <= 0x10FFFF {
        if let Some(c) = char::from_u32(code) {
            assert_eq!(char_is_whitespace(c), c.is_whitespace(), "U+{:04X}", code);
        }
        code += 1;
    }
}

#[test]
fn to_chars_keeps_every_char_in_order() {
    assert_eq!(to_chars(""), Vec::<char>::new());
    assert_eq!(to_chars("a1 \n"), vec!['a', '1', ' ', '\n']);
    assert_eq!(to_chars("h\u{e9}\u{65e5}\u{1F600}"), vec!['h', '\u{e9}', '\u{65e5}', '\u{1F600}']);
}

#[test]
fn trim_removes_whitespace_at_both_ends_only() {
    assert_eq!(trim(" 1234.5\n"), "1234.5");
    assert_eq!(trim("\t\r\n a b \x0b\x0c"), "a b");
    assert_eq!(trim("abc"), "abc");
    assert_eq!(trim("a"), "a");
    assert_eq!(trim(" a"), "a");
    assert_eq!(trim("a "), "a");
}

#[test]
fn trim_of_nothing_but_whitespace_is_empty() {
    assert_eq!(trim(""), "");
    assert_eq!(trim(" "), "");
    assert_eq!(trim(" \t\n\r\u{a0}\u{3000}"), "");
}

#[test]
fn trim_knows_whitespace_beyond_ascii() {
    assert_eq!(trim("\u{85}\u{a0}\u{1680}\u{2000}\u{200a}x\u{2028}\u{2029}\u{202f}\u{205f}\u{3000}"), "x");
    // Neither the zero-width space nor the byte-order mark is whitespace.
    assert_eq!(trim("\u{200b}x\u{feff}"), "\u{200b}x\u{feff}");
}

#[test]
fn trim_agrees_with_std_on_samples() {
    let samples = [
        "",
        " ",
        "x",
        "  x  ",
        "\n\n1700000000.0\n",
        " a \u{3000} b ",
        "\u{2003}\u{65e5}\u{672c}\u{8a9e} ",
        "no-padding",
        "\u{1F600} ",
        "\u{0}\u{1f} x",
    ];
    for sample in samples {
        assert_eq!(trim(sample), sample.trim(), "{:?}", sample);
    }
}

#[test]
fn same_text_compares_every_char() {
    assert!(same_text("", ""));
    assert!(same_text("quit", "quit"));
    assert!(same_text("\u{65e5}\u{672c}", "\u{65e5}\u{672c}"));
    assert!(!same_text("quit", "quiT"));
    assert!(!same_text("quit", "quit "));
    assert!(!same_text("", "q"));
    assert!(!same_text("tiuq", "quit"));
    assert!(!same_text("\u{65e5}\u{672c}", "\u{65e5}\u{672d}"));
    // Same length in bytes, different characters.
    assert!(!same_text("\u{e9}", "ab"));
}
