use pulsenet::text::{
    char_is_space, has_prefix_at, scan_until, skip_repeated, text_before_or_same, trim,
};

#[test]
fn white_space_is_what_the_standard_library_calls_white_space() {
    let mut code: u32 = 0;
    while code <= 0x10FFFF {
        if let Some(c) = char::from_u32(code) {
            assert_eq!(char_is_space(c), c.is_whitespace(), "code point {:#x}", code);
        }
        code += 1;
    }
}

#[test]
fn trim_removes_white_space_at_both_ends_only() {
    assert_eq!(trim("  a b \t\r\n"), "a b");
    assert_eq!(trim(""), "");
    assert_eq!(trim(" \u{3000}\u{a0} "), "");
    assert_eq!(trim("x"), "x");
    assert_eq!(trim("\u{2003}é ü\u{85}"), "é ü");
}

#[test]
fn trim_agrees_with_the_standard_library() {
    for s in ["", " ", "a", " a", "a ", "\n a \n b \n", "\u{feff}a", "\u{200b} a", "  \u{1680}x"] {
        assert_eq!(trim(s), s.trim());
    }
}

#[test]
fn prefix_is_looked_for_at_the_given_place() {
    assert!(has_prefix_at("abcdef", 0, "abc"));
    assert!(has_prefix_at("abcdef", 2, "cd"));
    assert!(!has_prefix_at("abcdef", 2, "ce"));
    assert!(!has_prefix_at("abcdef", 4, "efg"));
    assert!(has_prefix_at("abcdef", 6, ""));
    assert!(has_prefix_at("äbc", 1, "bc"));
}

#[test]
fn repeated_prefix_is_skipped_whole() {
    assert_eq!(skip_repeated("ababax", 0, "ab"), 4);
    assert_eq!(skip_repeated("ababax", 1, "ab"), 1);
    assert_eq!(skip_repeated("aaaa", 0, "a"), 4);
    assert_eq!(skip_repeated("abc", 0, ""), 0);
}

#[test]
fn scan_stops_at_the_first_stopping_character() {
    assert_eq!(scan_until("ab/cd?e", 0, '/', '?', '#'), 2);
    assert_eq!(scan_until("ab/cd?e", 3, '/', '?', '#'), 5);
    assert_eq!(scan_until("abc", 0, '/', '?', '#'), 3);
    assert_eq!(scan_until("abc", 3, '/', '?', '#'), 3);
    assert_eq!(scan_until("#", 0, '/', '?', '#'), 0);
}

#[test]
fn string_order_agrees_with_the_standard_library() {
    let words = ["", "a", "A", "ab", "b", "Ethernet", "Wi-Fi", "ethernet", "é", "z", "zz", "\u{10000}", "\u{ffff}"];
    for a in words {
        for b in words {
            assert_eq!(text_before_or_same(a, b), a <= b, "{:?} {:?}", a, b);
        }
    }
}
