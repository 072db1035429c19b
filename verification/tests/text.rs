//! Quoting, numbers, lists, searching and blanks.

use rapsqlite::text;

#[test]
fn quoting_doubles_the_mark() {
    assert_eq!(text::quote_literal("it's"), "'it''s'");
    assert_eq!(text::quote_literal(""), "''");
    assert_eq!(text::quoted_identifier("a\"b"), "\"a\"\"b\"");
    assert_eq!(text::double("''", '\''), "''''");
    assert_eq!(text::quote("x", '`'), "`x`");
}

#[test]
fn quoting_keeps_texts_apart() {
    let texts = ["", "'", "''", "a'b", "ab'", "'ab"];
    for (i, a) in texts.iter().enumerate() {
        for (j, b) in texts.iter().enumerate() {
            assert_eq!(text::quote_literal(a) == text::quote_literal(b), i == j);
        }
    }
}

#[test]
fn numbers_are_written_in_decimal() {
    assert_eq!(text::format_unsigned(0), "0");
    assert_eq!(text::format_unsigned(u64::MAX), u64::MAX.to_string());
    for n in [0i64, 7, -7, 10, -10, 1_234_567_890, i64::MAX, i64::MIN] {
        assert_eq!(text::format_signed(n), n.to_string());
    }
}

#[test]
fn bytes_are_written_in_hexadecimal() {
    let bytes: Vec<u8> = (0..=255).collect();
    let mut expected = String::new();
    for b in &bytes {
        expected.push_str(&format!("{b:02x}"));
    }
    assert_eq!(text::bytes_to_hex(&bytes), expected);
    assert_eq!(text::bytes_to_hex(&[]), "");
}

#[test]
fn lists_join_and_split() {
    let parts = vec!["a".to_string(), "".to_string(), "c".to_string()];
    assert_eq!(text::join(&parts, ", "), "a, , c");
    assert_eq!(text::join(&vec![], ", "), "");
    let split = text::split(&text::characters("a,,c"), ',');
    assert_eq!(split, vec![vec!['a'], vec![], vec!['c']]);
    assert_eq!(text::split(&vec![], ','), vec![Vec::<char>::new()]);
}

#[test]
fn searching_finds_the_first() {
    let hay = text::characters("one FROM two FROM three");
    assert_eq!(text::find(&hay, &text::characters(" FROM ")), Some(3));
    assert_eq!(text::find(&hay, &text::characters("x")), None);
    assert_eq!(text::find(&hay, &vec![]), Some(0));
    assert!(text::contains("create UNIQUE index", "UNIQUE"));
    assert!(!text::contains("UNIQ", "UNIQUE"));
    assert!(text::starts_with("sqlite_master", "sqlite_"));
    assert!(!text::starts_with("sqlite", "sqlite_"));
    assert!(text::equal("abc", "abc"));
    assert!(!text::equal("abc", "abC"));
}

#[test]
fn lengths_and_nuls_count_bytes() {
    assert_eq!(text::length_in_bytes("a\u{e9}\u{1f600}"), 7);
    assert_eq!(text::nul_position("\u{e9}\0\0"), Some(2));
    assert_eq!(text::nul_position("abc"), None);
    for s in ["", "\0", "a\0", "\u{20ac}\0x", "plain"] {
        assert_eq!(text::nul_position(s), s.bytes().position(|b| b == 0));
    }
}

#[test]
fn white_space_is_unicode_white_space() {
    for n in 0..=0x10ffffu32 {
        if let Some(c) = char::from_u32(n) {
            assert_eq!(text::is_white(c), c.is_whitespace());
        }
    }
}

#[test]
fn trimming_cuts_both_ends() {
    for s in ["", "  ", "a", " a b\t\n", "\u{a0}x\u{3000}", "no blanks"] {
        let trimmed: String = text::trim(&text::characters(s)).iter().collect();
        assert_eq!(trimmed, s.trim());
    }
}

#[test]
fn ascii_letters_change_case_alone() {
    for s in ["", "Text", "VarChar(10)", "stra\u{df}e", "\u{c9}t\u{e9}"] {
        assert_eq!(text::to_ascii_uppercase(s), s.to_ascii_uppercase());
        assert_eq!(text::to_ascii_lowercase(s), s.to_ascii_lowercase());
    }
}
