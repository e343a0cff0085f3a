use newsletter::text::{
    begins_with, byte_len, find_char, first_segment, head, int_text, is_alike, is_hex_digit,
    is_less, is_white, last_segment, replace, same, strip_prefix, to_chars, to_lower, to_text, trim,
    trim_end_char, trim_end_text,
};

const SAMPLES: [&str; 14] = [
    "",
    " ",
    "a",
    "  a b  ",
    "\t\u{a0}x\u{3000}\n",
    "/",
    "//a//b//",
    "a/b/c",
    "| Jacob Stephens| Jacob Stephens",
    "Title | Jacob Stephens",
    "\u{e9}t\u{e9} \u{1f41d} bee",
    "aaaa",
    "abab",
    "&amp;&lt;",
];

#[test]
fn white_space_is_that_of_unicode() {
    for n in 0..0x11_0000u32 {
        if let Some(c) = char::from_u32(n) {
            assert_eq!(is_white(c), c.is_whitespace(), "{n:x}");
        }
    }
}

#[test]
fn ascii_classes_are_those_of_std() {
    for n in 0..0x11_0000u32 {
        if let Some(c) = char::from_u32(n) {
            assert_eq!(is_hex_digit(c), c.is_ascii_hexdigit());
            assert_eq!(to_lower(c), c.to_ascii_lowercase());
        }
    }
}

#[test]
fn trimming_is_that_of_std() {
    for s in SAMPLES {
        assert_eq!(trim(s), s.trim());
        assert_eq!(trim_end_char(s, '/'), s.trim_end_matches('/'));
        assert_eq!(
            trim_end_text(s, "| Jacob Stephens"),
            s.trim_end_matches("| Jacob Stephens")
        );
    }
}

#[test]
fn characters_come_back_as_they_were() {
    for s in SAMPLES {
        assert_eq!(to_text(&to_chars(s)), s);
        assert_eq!(byte_len(s), s.len());
    }
}

#[test]
fn replacing_is_that_of_std() {
    for s in SAMPLES {
        for (pat, with) in [("a", "bb"), ("aa", "a"), ("ab", ""), ("&amp;", "&"), (" ", "__")] {
            assert_eq!(replace(s, pat, with), s.replace(pat, with));
        }
    }
}

#[test]
fn segments_are_those_of_std() {
    for s in SAMPLES {
        assert_eq!(
            first_segment(s, '/').as_deref(),
            s.split('/').find(|p| !p.is_empty())
        );
        assert_eq!(
            last_segment(s, '/').as_deref(),
            s.rsplit('/').find(|p| !p.is_empty())
        );
        assert_eq!(head(s, '/'), s.split('/').next().unwrap());
    }
}

#[test]
fn prefixes_are_those_of_std() {
    for s in SAMPLES {
        for pat in ["", "a", "//", "Title", "zzz"] {
            assert_eq!(strip_prefix(s, pat).as_deref(), s.strip_prefix(pat));
            assert_eq!(begins_with(s, pat), s.starts_with(pat));
        }
    }
}

#[test]
fn a_character_is_found_where_it_first_stands() {
    let c = to_chars("a@b@c");
    assert_eq!(find_char(&c, '@'), Some(1));
    assert_eq!(find_char(&c, 'c'), Some(4));
    assert_eq!(find_char(&c, 'x'), None);
}

#[test]
fn comparing_is_that_of_std() {
    for a in SAMPLES {
        for b in SAMPLES {
            assert_eq!(same(a, b), a == b);
            assert_eq!(is_less(a, b), a < b);
            assert_eq!(is_alike(a, b), a.eq_ignore_ascii_case(b));
        }
    }
    assert!(is_alike("Ann@Example.org", "aNN@example.ORG"));
    assert!(!is_alike("\u{c9}", "\u{e9}"));
}

#[test]
fn what_stands_behind_a_nul_does_not_tell_texts_apart() {
    assert!(is_alike("a\0b", "A\0c"));
    assert!(is_alike("a\0\u{e9}", "a\0bc"));
    assert!(is_alike("\0", "\0"));
    assert!(!is_alike("a\0b", "a\0bc"));
    assert!(!is_alike("a\0b", "abc"));
    assert!(!is_alike("a\0b", "b\0b"));
    assert!(!is_alike("a\0", "ab"));
}

#[test]
fn numbers_are_written_out() {
    for n in [0, 1, 9, 10, 1234567890, -1, -10, i64::MAX, i64::MIN] {
        assert_eq!(int_text(n), n.to_string());
    }
}
