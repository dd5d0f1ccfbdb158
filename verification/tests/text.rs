use musedesk::text::{
    chars_of, decimal_of, join, labelled, strip_prefix, tail, text_of, trim, trim_trailing,
};

#[test]
fn white_space_is_what_trimming_removes() {
    for n in 0..=0x10ffffu32 {
        if let Some(c) = char::from_u32(n) {
            let listed = matches!(
                n,
                0x09..=0x0d
                    | 0x20
                    | 0x85
                    | 0xa0
                    | 0x1680
                    | 0x2000..=0x200a
                    | 0x2028
                    | 0x2029
                    | 0x202f
                    | 0x205f
                    | 0x3000
            );
            assert_eq!(trim(&c.to_string()).is_empty(), listed, "{n:x}");
        }
    }
}

#[test]
fn padding_is_trimmed() {
    assert_eq!(trim(" \t\u{3000}a b\r\n"), "a b");
    assert_eq!(trim("a"), "a");
    assert_eq!(trim(" \n "), "");
    assert_eq!(trim(""), "");
}

#[test]
fn prefixes_and_ends_are_cut() {
    assert_eq!(strip_prefix("data: x", "data:"), Some(" x".to_string()));
    assert_eq!(strip_prefix("dat", "data:"), None);
    assert_eq!(strip_prefix("dada:", "data:"), None);
    assert_eq!(strip_prefix("é", ""), Some("é".to_string()));
    assert_eq!(trim_trailing("a//b//", '/'), "a//b");
    assert_eq!(trim_trailing("//", '/'), "");
    assert_eq!(tail("aéb", 2), "éb");
    assert_eq!(tail("ab", 2), "ab");
    assert_eq!(tail("ab", 0), "");
}

#[test]
fn numerals_are_decimal() {
    for n in [0usize, 7, 10, 99, 100, 12345, usize::MAX] {
        assert_eq!(decimal_of(n), n.to_string());
    }
}

#[test]
fn texts_are_joined_with_a_separator() {
    let parts = |v: &[&str]| v.iter().map(|s| s.to_string()).collect::<Vec<_>>();
    assert_eq!(join(&parts(&[]), ", "), "");
    assert_eq!(join(&parts(&["a"]), ", "), "a");
    assert_eq!(join(&parts(&["a", "", "b"]), ", "), "a, , b");
}

#[test]
fn characters_make_up_a_text() {
    let cs = chars_of("aéz");
    assert_eq!(cs, ['a', 'é', 'z']);
    assert_eq!(text_of(&cs, 1, 3), "éz");
}

#[test]
fn a_failure_is_labelled() {
    assert_eq!(labelled("request failed", "timeout"), "request failed: timeout");
}
