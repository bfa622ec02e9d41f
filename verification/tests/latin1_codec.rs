use uefi_strings::latin1::{str_is_latin1_encodable, str_num_latin1_chars, str_to_latin1};

#[test]
fn test_str_to_latin1() {
    // The declared size is the character count plus one for the trailing
    // null; the output is the characters' Latin-1 bytes followed by null.
    assert_eq!(str_to_latin1("ABC", 4), vec![0x41, 0x42, 0x43, 0]);
}

#[test]
fn test_str_to_latin1_two_byte_sequences() {
    // Characters in the upper Latin-1 half arrive as 2-byte UTF-8
    // sequences and decode through the (5+6)-bit reconstruction.
    assert_eq!(str_to_latin1("é", 2), vec![0xe9, 0]);
    assert_eq!(str_to_latin1("aéz", 4), vec![b'a', 0xe9, b'z', 0]);
}

#[test]
fn test_str_num_latin1_chars() {
    assert_eq!(str_num_latin1_chars("ABC"), 3);
    assert_eq!(str_num_latin1_chars(""), 0);
    assert_eq!(str_num_latin1_chars("héllo"), 5);
}

#[test]
fn test_latin1_rejects_wide_input() {
    // A character whose UTF-8 encoding takes three bytes cannot be
    // Latin-1, so construction through the codec is refused up front.
    assert!(!str_is_latin1_encodable("€"));
    // A scalar above 0xFF with a 2-byte encoding is refused as well.
    assert!(!str_is_latin1_encodable("ā"));
    // An interior null is refused.
    assert!(!str_is_latin1_encodable("a\0b"));
    // Plain Latin-1 text passes.
    assert!(str_is_latin1_encodable("héllo"));
    assert!(str_is_latin1_encodable(""));
}
