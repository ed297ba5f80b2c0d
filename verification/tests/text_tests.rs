use pane_links::text::{contains_control, decimal_string, is_control, is_white_space, trim};

#[test]
fn white_space_matches_std_on_every_char() {
    for u in 0u32..=0x10FFFF {
        if let Some(c) = char::from_u32(u) {
            assert_eq!(is_white_space(c), c.is_whitespace(), "U+{u:04X}");
        }
    }
}

#[test]
fn control_matches_std_on_every_char() {
    for u in 0u32..=0x10FFFF {
        if let Some(c) = char::from_u32(u) {
            assert_eq!(is_control(c), c.is_control(), "U+{u:04X}");
        }
    }
}

#[test]
fn trim_removes_unicode_white_space_at_both_ends() {
    assert_eq!(trim("  a b  "), "a b");
    assert_eq!(trim("\u{3000}\t label\u{2029}\u{a0}"), "label");
    assert_eq!(trim(" \n\t "), "");
    assert_eq!(trim(""), "");
    assert_eq!(trim("x"), "x");
    assert_eq!(trim("\u{200b}x\u{200b}"), "\u{200b}x\u{200b}");
    for s in ["", " ", "é ", " é", "\u{85}a\u{85}b\u{85}", "a\u{1680}", "\r\nz\r\n"] {
        assert_eq!(trim(s), s.trim(), "{s:?}");
    }
}

#[test]
fn contains_control_finds_any_control_code() {
    assert!(contains_control("a\u{9f}"));
    assert!(contains_control("\u{0}"));
    assert!(!contains_control("a\u{a0}b"));
    assert!(!contains_control(""));
}

#[test]
fn decimal_string_writes_base_ten() {
    for n in [0usize, 7, 9, 10, 64, 100, 2048, 1234567890, usize::MAX] {
        assert_eq!(decimal_string(n), n.to_string());
    }
}
