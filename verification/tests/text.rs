//! Text primitives, held against those of std.

use beads_backend::text::{
    chars_of, decimal_text, dotted_prefix_text, is_white_space, signed_decimal_text, text_of,
    trimmed, underscored_text,
};

#[test]
fn white_space_is_that_of_unicode() {
    for n in 0..=0x10ffffu32 {
        if let Some(c) = char::from_u32(n) {
            assert_eq!(is_white_space(c), c.is_whitespace(), "{n:x}");
        }
    }
}

#[test]
fn trimming_is_that_of_std() {
    for text in ["", " ", "a", " a", "a ", "\t a b \r\n", "\u{a0}x\u{2003}", "\u{3000}", "  \u{85}"] {
        let chars = chars_of(text);
        assert_eq!(trimmed(&chars, 0, chars.len()), text.trim(), "{text:?}");
    }
    let chars = chars_of("ab  cd  ef");
    assert_eq!(trimmed(&chars, 2, 8), "cd");
    assert_eq!(text_of(&chars, 2, 8), "  cd  ");
}

#[test]
fn decimals_are_those_of_std() {
    for n in [0u64, 1, 9, 10, 11, 99, 100, 3307, 65535, 1000000007, u64::MAX - 1, u64::MAX] {
        assert_eq!(decimal_text(n), n.to_string());
    }
    for n in [0i64, 7, -1, -9, -10, 42, -3307, i64::MAX, i64::MIN, i64::MIN + 1] {
        assert_eq!(signed_decimal_text(n), n.to_string());
    }
}

#[test]
fn hyphens_become_underscores() {
    for text in ["", "-", "a-b-c", "beads_My-Project", "--", "no_hyphen", "\u{2013}-\u{e9}"] {
        assert_eq!(underscored_text(text), text.replace('-', "_"));
    }
}

#[test]
fn dotted_prefixes_end_before_the_last_full_stop() {
    for text in ["", ".", "a", "a.b", "a.b.c", ".a", "a.", "a..b", "\u{e9}.1"] {
        let expected = text.rfind('.').map(|at| text[..at].to_string());
        assert_eq!(dotted_prefix_text(text), expected, "{text:?}");
    }
}
