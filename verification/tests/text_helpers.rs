use webcodex::text::{byte_len, has_prefixed_hex, text_equals};

#[test]
fn text_helpers_compare_characters() {
    assert!(text_equals("abc", "abc"));
    assert!(!text_equals("abc", "abd"));
    assert!(!text_equals("abc", "ab"));
    assert_eq!(byte_len("黑a"), 4);
    assert!(has_prefixed_hex("p_0a", "p_", 2));
    assert!(!has_prefixed_hex("p_0A", "p_", 2));
    assert!(!has_prefixed_hex("q_0a", "p_", 2));
    assert!(!has_prefixed_hex("p_0a1", "p_", 2));
}
