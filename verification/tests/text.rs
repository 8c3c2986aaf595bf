use cs2_dumper::text::{
    append_dec, append_hex, append_hex_i32, append_hex_i64, before_char_text, chars_of,
    ends_with_char_text, replace_char_text, starts_with_text, text_eq, trim_text, white_space,
};

fn hex_i32(x: i32) -> String {
    let mut s = String::new();
    append_hex_i32(&mut s, x);
    s
}

fn hex_i64(x: i64) -> String {
    let mut s = String::new();
    append_hex_i64(&mut s, x);
    s
}

#[test]
fn hex_formats_like_alternate_upper_hex() {
    for x in [0i32, 1, 9, 10, 15, 16, 255, 256, 0x1234, i32::MAX, -1, -2, i32::MIN, -0x10] {
        assert_eq!(hex_i32(x), format!("{:#X}", x));
    }
    for x in [0i64, 7, 0xABCDEF, i64::MAX, -1, i64::MIN, -0x1234_5678_9ABC] {
        assert_eq!(hex_i64(x), format!("{:#X}", x));
    }
    let mut s = String::from("v=");
    append_hex(&mut s, u64::MAX);
    assert_eq!(s, "v=0xFFFFFFFFFFFFFFFF");
}

#[test]
fn hex_exact_values() {
    assert_eq!(hex_i32(0), "0x0");
    assert_eq!(hex_i32(0x1F), "0x1F");
    assert_eq!(hex_i32(-1), "0xFFFFFFFF");
    assert_eq!(hex_i64(-2), "0xFFFFFFFFFFFFFFFE");
}

#[test]
fn decimal_formats_like_display() {
    for n in [0usize, 5, 10, 99, 100, 12345, usize::MAX] {
        let mut s = String::new();
        append_dec(&mut s, n);
        assert_eq!(s, n.to_string());
    }
}

#[test]
fn character_helpers() {
    assert_eq!(chars_of("aé😀"), vec!['a', 'é', '😀']);
    assert!(text_eq("abc", "abc"));
    assert!(!text_eq("abc", "abd"));
    assert!(!text_eq("abc", "ab"));
    assert_eq!(replace_char_text("a.b.c", '.', "_"), "a_b_c");
    assert_eq!(replace_char_text("line1\nline2\n", '\n', " "), "line1 line2 ");
    assert_eq!(replace_char_text("C Handle < int >", ' ', ""), "CHandle<int>");
    assert_eq!(before_char_text("CHandle<C_BaseEntity>", '<'), "CHandle");
    assert_eq!(before_char_text("float32[3]", '['), "float32");
    assert_eq!(before_char_text("plain", '<'), "plain");
    assert!(starts_with_text("CUtlVector<int>", "CUtlVector<"));
    assert!(!starts_with_text("CUtl", "CUtlVector<"));
    assert!(ends_with_char_text("char*", '*'));
    assert!(!ends_with_char_text("", '*'));
}

#[test]
fn trim_matches_std() {
    for s in ["  a b  ", "\t\nx\r\n", "", "   ", "\u{3000}y\u{2009}", "no-space", " \u{85}z\u{A0}"] {
        assert_eq!(trim_text(s), s.trim());
    }
    for c in ['\t', ' ', '\u{2028}', 'a', '_', '\u{3000}', '\u{200B}'] {
        assert_eq!(white_space(c), c.is_whitespace());
    }
}
