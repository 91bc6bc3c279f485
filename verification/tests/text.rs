use chatter::list::{index_in_list, list_contains, push_missing};
use chatter::text::{
    char_is_ascii_alphanumeric, char_is_control, char_is_white_space, char_to_ascii_lower, chars_of,
    i64_text, position_of_char, position_of_text, same_text, text_contains, text_has_control,
    text_is_blank, text_len, trim, u64_text,
};

#[test]
fn characters_are_classed_as_in_the_standard_library() {
    for code in 0u32..=0x10ffff {
        if let Some(c) = char::from_u32(code) {
            assert_eq!(char_is_white_space(c), c.is_whitespace(), "{:x}", code);
            assert_eq!(char_is_control(c), c.is_control(), "{:x}", code);
            assert_eq!(char_is_ascii_alphanumeric(c), c.is_ascii_alphanumeric());
            assert_eq!(char_to_ascii_lower(c), c.to_ascii_lowercase());
        }
    }
}

#[test]
fn numbers_are_written_in_decimal() {
    for n in [0u64, 7, 10, 99, 100, 8080, 65535, u64::MAX] {
        assert_eq!(u64_text(n), n.to_string());
    }
    for i in [0i64, -1, 42, -1_735_732_800, i64::MAX, i64::MIN] {
        assert_eq!(i64_text(i), i.to_string());
    }
}

#[test]
fn texts_are_searched() {
    assert_eq!(text_len("é1"), 3);
    assert!(same_text("a", "a"));
    assert!(!same_text("a", "b"));
    assert_eq!(chars_of("aé"), vec!['a', 'é']);
    assert_eq!(trim("  x y "), "x y");
    assert!(text_is_blank(" \n"));
    assert!(text_has_control("a\u{9f}"));
    assert!(text_contains("abcabd", "abd"));
    assert!(!text_contains("abcab", "abd"));
    assert!(text_contains("abc", ""));
    assert_eq!(position_of_text(&chars_of("abab"), &chars_of("ab"), 1), Some(2));
    assert_eq!(position_of_text(&chars_of("abab"), &chars_of("ab"), 3), None);
    assert_eq!(position_of_char(&chars_of("a:b:"), ':', 2), Some(3));
    assert_eq!(position_of_char(&chars_of("a"), ':', 5), None);
}

#[test]
fn lists_hold_nothing_twice() {
    let mut list = vec!["a".to_string(), "b".to_string()];
    let more = vec!["b".to_string(), "c".to_string(), "c".to_string()];
    push_missing(&mut list, &more);
    assert_eq!(list, vec!["a", "b", "c"]);
    assert_eq!(index_in_list(&list, "c"), Some(2));
    assert_eq!(index_in_list(&list, "d"), None);
    assert!(list_contains(&list, "a"));
}
