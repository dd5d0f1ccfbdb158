use musedesk::utf8::{cut, decode};

#[test]
fn text_is_decoded_back() {
    for s in ["", "abc", "aé…🙂\n"] {
        assert_eq!(decode(s.as_bytes()), s);
    }
    assert_eq!(decode(b"a\xffb\xc3"), "a\u{fffd}b\u{fffd}");
}

#[test]
fn the_longest_start_that_fits_is_kept() {
    let s = "aé…🙂b";
    let kept: Vec<&str> = (0..=12).map(|max| cut(s, max)).collect();
    assert_eq!(
        kept,
        ["", "a", "a", "aé", "aé", "aé", "aé…", "aé…", "aé…", "aé…", "aé…🙂", s, s]
    );
}
