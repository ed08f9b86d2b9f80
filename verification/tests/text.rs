use brew_server::text::{
    contains, is_white_space, push_decimal, push_padded_decimal, push_signed_decimal, starts_with,
    to_lower, to_upper, trim,
};
use brew_server::text_map::TextMap;

#[test]
fn white_space_is_that_of_unicode() {
    for u in 0..=0x10_ffffu32 {
        if let Some(c) = char::from_u32(u) {
            assert_eq!(is_white_space(c), c.is_whitespace());
        }
    }
}

#[test]
fn trimming_and_case_agree_with_the_standard_library() {
    for s in ["", " ", "a", " a b ", "\u{3000}xÄy\u{a0}\n", "ß é Z{[`@", "\t\t"] {
        assert_eq!(trim(s), s.trim());
        assert_eq!(to_upper(s), s.to_ascii_uppercase());
        assert_eq!(to_lower(s), s.to_ascii_lowercase());
    }
    for u in 0..256u32 {
        let s = char::from_u32(u).unwrap().to_string();
        assert_eq!(to_upper(&s), s.to_ascii_uppercase());
        assert_eq!(to_lower(&s), s.to_ascii_lowercase());
    }
}

#[test]
fn searching_agrees_with_the_standard_library() {
    let texts = ["", "a", "ab", "aab", "abab", "ba", "aaa"];
    for s in texts {
        for part in texts {
            assert_eq!(contains(s, part), s.contains(part));
            assert_eq!(starts_with(s, part), s.starts_with(part));
        }
    }
}

#[test]
fn numbers_agree_with_formatting() {
    for n in [0u64, 1, 9, 10, 99, 100, 12_345, u64::MAX] {
        let mut out = "x".to_string();
        push_decimal(&mut out, n);
        assert_eq!(out, format!("x{n}"));
        for width in [0usize, 1, 2, 3, 5, 25] {
            let mut out = String::new();
            push_padded_decimal(&mut out, n, width);
            assert_eq!(out, format!("{n:0width$}"));
        }
    }
    for i in [0i32, 1, -1, 42, -12_345, i32::MAX, i32::MIN] {
        let mut out = String::new();
        push_signed_decimal(&mut out, i);
        assert_eq!(out, i.to_string());
    }
}

#[test]
fn maps_keyed_by_text_hold_one_value_for_each_key() {
    let mut m: TextMap<u32> = TextMap::new();
    assert!(m.is_empty());
    assert_eq!(m.insert("a".to_string(), 1), None);
    assert_eq!(m.insert("b".to_string(), 2), None);
    assert_eq!(m.insert("a".to_string(), 3), Some(1));
    assert_eq!(m.len(), 2);
    assert_eq!(m.get("a"), Some(&3));
    assert_eq!(m.get("c"), None);
    let copy = m.clone();
    assert_eq!(m.remove("a"), Some(3));
    assert_eq!(m.remove("a"), None);
    assert_eq!(m.len(), 1);
    let (key, value) = m.entry_at(0);
    assert_eq!((key.as_str(), *value), ("b", 2));
    assert_eq!(copy.get("a"), Some(&3));
}
