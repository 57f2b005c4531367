use gens_relay::text::{
    chars_of, comes_before, decimal_text, is_blank, is_white, parse_trimmed_u16, same, text_of, trim,
};

#[test]
fn white_space_is_that_of_the_standard_library() {
    for n in 0..=0x10ffffu32 {
        if let Some(c) = char::from_u32(n) {
            assert_eq!(is_white(c), c.is_whitespace(), "U+{:04X}", n);
        }
    }
}

#[test]
fn trimming_agrees_with_the_standard_library() {
    for s in ["", " ", "a", " a ", "\t\n a b \u{3000}", "\u{a0}x\u{2028}", "é"] {
        assert_eq!(trim(s), s.trim());
        assert_eq!(is_blank(s), s.trim().is_empty());
    }
}

#[test]
fn numbers_agree_with_the_standard_library() {
    for s in [
        "0", "80", "65535", "65536", "99999999999999999999", "+7", "+", "-1", "", " 61879\n",
        "00000000008888", "8 8", "8a", "\u{663}",
    ] {
        assert_eq!(parse_trimmed_u16(s), s.trim().parse::<u16>().ok(), "{:?}", s);
    }
    for n in [0u64, 9, 10, 16384, u64::MAX] {
        assert_eq!(decimal_text(n), n.to_string());
    }
}

#[test]
fn texts_are_compared_by_their_characters() {
    assert!(same("", ""));
    assert!(same("gens-daemon", "gens-daemon"));
    assert!(!same("gens-daemon", "gens-gui"));
    assert!(!same("a", "ab"));
}

#[test]
fn texts_are_ordered_as_the_standard_library_orders_them() {
    let texts = ["", "A", "B", "a", "ab", "b", "é", "\u{ffff}", "\u{10000}"];
    for a in texts {
        for b in texts {
            assert_eq!(comes_before(a, b), a < b, "{:?} {:?}", a, b);
        }
    }
}

#[test]
fn characters_make_up_their_text_again() {
    let v = chars_of("naïve");
    assert_eq!(v, vec!['n', 'a', 'ï', 'v', 'e']);
    assert_eq!(text_of(&v, 1, 4), "aïv");
    assert_eq!(text_of(&v, 2, 2), "");
}
