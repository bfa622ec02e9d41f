use uefi_strings::eqstr::{str_eq_until_nul_cstr8, EqStrUntilNul};
use uefi_strings::{CStr8, FromSliceWithNulError};

#[test]
fn test_cstr8_as_bytes() {
    let string = CStr8::from_bytes_with_nul(b"a\0").unwrap();
    assert_eq!(string.as_bytes(), &[b'a', 0]);
}

#[test]
fn test_cstr8_display() {
    let s = CStr8::from_bytes_with_nul(b"abc\0").unwrap();
    assert_eq!(s.to_string(), "abc");
}

#[test]
fn test_cstr8_from_bytes_with_nul() {
    assert_eq!(
        CStr8::from_bytes_with_nul(b"").unwrap_err(),
        FromSliceWithNulError::NotNulTerminated
    );
    assert_eq!(
        CStr8::from_bytes_with_nul(b"ab").unwrap_err(),
        FromSliceWithNulError::NotNulTerminated
    );
    assert_eq!(
        CStr8::from_bytes_with_nul(b"a\0b\0").unwrap_err(),
        FromSliceWithNulError::InteriorNul(1)
    );
    assert_eq!(
        CStr8::from_bytes_with_nul(b"\0").unwrap().as_bytes(),
        &[0]
    );
}

#[test]
fn test_cstr8_latin1_display() {
    // A Latin-1 byte above the ASCII range maps to the character with the
    // same scalar value.
    let s = CStr8::from_bytes_with_nul(&[0xe9, 0]).unwrap();
    assert_eq!(s.to_string(), "é");
}

#[test]
fn test_compare_cstr8() {
    let input = CStr8::from_bytes_with_nul(b"test\0").unwrap();
    assert!(input.eq_str_until_nul("test"));
    assert!(input.eq_str_until_nul(String::from("test").as_str()));

    // now other direction
    assert!(str_eq_until_nul_cstr8(String::from("test").as_str(), &input));
    assert!(str_eq_until_nul_cstr8("test", &input));

    // some more tests
    // this is fine: compare until the first null
    assert!(input.eq_str_until_nul("te\0st"));
    // this is fine
    assert!(input.eq_str_until_nul("test\0"));
    assert!(!input.eq_str_until_nul("hello"));
}

#[test]
fn test_cstr8_eq_std_str() {
    let input = CStr8::from_bytes_with_nul(b"test\0").unwrap();

    assert!(input.eq_str_until_nul("test"));
    assert!(input.eq_str_until_nul(&"test"));
    assert!(input.eq_str_until_nul(String::from("test").as_str()));

    // now other direction
    assert!(str_eq_until_nul_cstr8(String::from("test").as_str(), &input));
    assert!(str_eq_until_nul_cstr8("test", &input));
}
