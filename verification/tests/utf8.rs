use async_ws::utf8::{is_utf8_exec, Utf8Validator};

#[test]
fn accepts_ascii_and_multibyte() {
    assert!(is_utf8_exec(&b"hello".to_vec()));
    // Two-, three- and four-byte characters.
    assert!(is_utf8_exec(&vec![0xC3, 0xA9]));
    assert!(is_utf8_exec(&vec![0xE2, 0x82, 0xAC]));
    assert!(is_utf8_exec(&vec![0xF0, 0x9F, 0x92, 0x96]));
    assert!(is_utf8_exec(&vec![]));
}

#[test]
fn rejects_malformed_sequences() {
    // Stray continuation byte.
    assert!(!is_utf8_exec(&vec![0x80]));
    // Leader followed by a non-continuation.
    assert!(!is_utf8_exec(&vec![0xC3, 0x28]));
    // Overlong encoding leaders are impossible leaders.
    assert!(!is_utf8_exec(&vec![0xC0, 0xAF]));
    assert!(!is_utf8_exec(&vec![0xC1, 0xBF]));
    // Surrogate range: ED A0 80.
    assert!(!is_utf8_exec(&vec![0xED, 0xA0, 0x80]));
    // Above U+10FFFF: F5 and beyond lead nothing.
    assert!(!is_utf8_exec(&vec![0xF5, 0x80, 0x80, 0x80]));
    // Truncated character.
    assert!(!is_utf8_exec(&vec![0xE2, 0x82]));
}

#[test]
fn validates_across_arbitrary_chunk_boundaries() {
    // A character split across feeds stays valid.
    let mut v = Utf8Validator::new();
    assert!(v.feed(&vec![0xE2]));
    assert!(!v.is_complete());
    assert!(v.feed(&vec![0x82]));
    assert!(!v.is_complete());
    assert!(v.feed(&vec![0xAC]));
    assert!(v.is_complete());
}

#[test]
fn rejects_as_soon_as_no_continuation_can_help() {
    let mut v = Utf8Validator::new();
    assert!(v.feed(&vec![0xC3]));
    assert!(!v.feed(&vec![0x28]));
}

#[test]
fn e0_second_byte_is_restricted() {
    // E0 9F .. would be overlong.
    assert!(!is_utf8_exec(&vec![0xE0, 0x9F, 0xBF]));
    assert!(is_utf8_exec(&vec![0xE0, 0xA0, 0x80]));
    // F0 90 is the lowest legal start of a 4-byte character.
    assert!(!is_utf8_exec(&vec![0xF0, 0x8F, 0xBF, 0xBF]));
    assert!(is_utf8_exec(&vec![0xF0, 0x90, 0x80, 0x80]));
    // F4 8F BF BF is U+10FFFF, the highest scalar.
    assert!(is_utf8_exec(&vec![0xF4, 0x8F, 0xBF, 0xBF]));
    assert!(!is_utf8_exec(&vec![0xF4, 0x90, 0x80, 0x80]));
}
