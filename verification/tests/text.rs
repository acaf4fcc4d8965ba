use todomvc::text::{char_is_whitespace, decimal_string, str_eq, trimmed};

#[test]
fn white_space_is_the_unicode_property() {
    let mut code: u32 = 0;
    let mut seen = 0;
    while code <= 0x10FFFF {
        if let Some(c) = char::from_u32(code) {
            assert_eq!(char_is_whitespace(c), c.is_whitespace(), "U+{:04X}", code);
            if char_is_whitespace(c) {
                seen += 1;
            }
        }
        code += 1;
    }
    assert_eq!(seen, 25);
}

#[test]
fn trimmed_drops_white_space_at_both_ends() {
    assert_eq!(trimmed("  Buy milk  "), "Buy milk");
    assert_eq!(trimmed("Buy milk"), "Buy milk");
    assert_eq!(trimmed("\t\n a  b \r\n"), "a  b");
    assert_eq!(trimmed("x"), "x");
    assert_eq!(trimmed(" x"), "x");
    assert_eq!(trimmed("x "), "x");
    assert_eq!(trimmed("\u{3000}\u{a0}caf\u{e9} \u{2003}\u{85}"), "caf\u{e9}");
    assert_eq!(trimmed("\u{200b} a \u{200b}"), "\u{200b} a \u{200b}");
}

#[test]
fn trimmed_blank_text_is_empty() {
    assert_eq!(trimmed(""), "");
    assert_eq!(trimmed("   "), "");
    assert_eq!(trimmed(" \t\r\n\u{b}\u{c}\u{85}\u{a0}\u{1680}\u{2028}\u{2029}\u{202f}\u{205f}\u{3000}"), "");
}

#[test]
fn trimmed_agrees_with_the_standard_library() {
    let parts = ["", " ", "a", "\t", "\u{e9}", "\u{3000}", "b c", "\u{1f600}", "\n", "\u{200b}"];
    for x in parts {
        for y in parts {
            for z in parts {
                for w in parts {
                    let text = format!("{}{}{}{}", x, y, z, w);
                    assert_eq!(trimmed(&text), text.trim(), "{:?}", text);
                }
            }
        }
    }
}

#[test]
fn decimal_string_writes_the_number() {
    assert_eq!(decimal_string(0), "0");
    assert_eq!(decimal_string(7), "7");
    assert_eq!(decimal_string(9), "9");
    assert_eq!(decimal_string(10), "10");
    assert_eq!(decimal_string(99), "99");
    assert_eq!(decimal_string(100), "100");
    assert_eq!(decimal_string(4096), "4096");
    assert_eq!(decimal_string(usize::MAX), usize::MAX.to_string());
    let mut n: usize = 0;
    while n < 2000 {
        assert_eq!(decimal_string(n), n.to_string());
        n += 1;
    }
}

#[test]
fn str_eq_compares_the_text() {
    assert!(str_eq("", ""));
    assert!(str_eq("/active", "/active"));
    assert!(str_eq("caf\u{e9}", "caf\u{e9}"));
    assert!(!str_eq("/active", "/activ"));
    assert!(!str_eq("/active", "/actives"));
    assert!(!str_eq("/active", "/actiVe"));
    assert!(!str_eq("", "a"));
    assert!(!str_eq("e\u{301}", "\u{e9}"));
}
