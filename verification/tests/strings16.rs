use uefi_strings::eqstr::{str_eq_until_nul_cstr16, EqStrUntilNul};
use uefi_strings::{CStr16, Char16, FromSliceUntilNulError, FromSliceWithNulError, FromStrWithBufError};

#[test]
fn test_cstr16_display() {
    let s = CStr16::from_u16_with_nul(&[97, 98, 99, 0]).unwrap();
    assert_eq!(s.to_string(), "abc");
}

#[test]
fn test_cstr16_num_bytes() {
    let s = CStr16::from_u16_with_nul(&[65, 66, 67, 0]).unwrap();
    assert_eq!(s.num_bytes(), 8);
}

#[test]
fn test_cstr16_from_u16_until_nul() {
    // Invalid: empty input.
    assert_eq!(
        CStr16::from_u16_until_nul(&[]).unwrap_err(),
        FromSliceUntilNulError::NoNul
    );

    // Invalid: no nul.
    assert_eq!(
        CStr16::from_u16_until_nul(&[65, 66]).unwrap_err(),
        FromSliceUntilNulError::NoNul
    );

    // Invalid: not UCS-2.
    assert_eq!(
        CStr16::from_u16_until_nul(&[65, 0xde01, 0]).unwrap_err(),
        FromSliceUntilNulError::InvalidChar(1)
    );

    // Valid: trailing nul.
    assert_eq!(
        CStr16::from_u16_until_nul(&[97, 98, 0]).unwrap().to_u16_slice_with_nul(),
        &[97, 98, 0]
    );

    // Valid: interior nul.
    assert_eq!(
        CStr16::from_u16_until_nul(&[97, 0, 98, 0]).unwrap().to_u16_slice_with_nul(),
        &[97, 0]
    );
}

#[test]
fn test_cstr16_from_char16_until_nul() {
    let a = Char16::try_from_char('a').unwrap();
    let b = Char16::try_from_char('b').unwrap();
    let nul = Char16::nul();
    let mut buf: Vec<u16> = Vec::new();

    // Invalid: empty input.
    assert_eq!(
        CStr16::from_char16_until_nul(&[], &mut buf).unwrap_err(),
        FromSliceUntilNulError::NoNul
    );

    // Invalid: no nul character.
    assert_eq!(
        CStr16::from_char16_until_nul(&[a, b], &mut buf).unwrap_err(),
        FromSliceUntilNulError::NoNul
    );

    // Valid: trailing nul.
    assert_eq!(
        CStr16::from_char16_until_nul(&[a, b, nul], &mut buf)
            .unwrap()
            .to_u16_slice_with_nul(),
        &[97, 98, 0]
    );

    // Valid: interior nul.
    let mut buf2: Vec<u16> = Vec::new();
    assert_eq!(
        CStr16::from_char16_until_nul(&[a, nul, b, nul], &mut buf2)
            .unwrap()
            .to_u16_slice_with_nul(),
        &[97, 0]
    );
}

#[test]
fn test_cstr16_from_char16_with_nul() {
    let a = Char16::try_from_char('a').unwrap();
    let b = Char16::try_from_char('b').unwrap();
    let nul = Char16::nul();
    let mut buf: Vec<u16> = Vec::new();

    // Invalid: empty input.
    assert_eq!(
        CStr16::from_char16_with_nul(&[], &mut buf).unwrap_err(),
        FromSliceWithNulError::NotNulTerminated
    );

    // Invalid: interior null.
    assert_eq!(
        CStr16::from_char16_with_nul(&[a, nul, b, nul], &mut buf).unwrap_err(),
        FromSliceWithNulError::InteriorNul(1)
    );

    // Invalid: no trailing null.
    assert_eq!(
        CStr16::from_char16_with_nul(&[a, b], &mut buf).unwrap_err(),
        FromSliceWithNulError::NotNulTerminated
    );

    // Valid.
    assert_eq!(
        CStr16::from_char16_with_nul(&[a, b, nul], &mut buf)
            .unwrap()
            .to_u16_slice_with_nul(),
        &[97, 98, 0]
    );
}

#[test]
fn test_cstr16_from_str_with_buf() {
    let mut buf: Vec<u16> = vec![0; 4];

    // OK: buf is exactly the right size.
    let s = CStr16::from_str_with_buf("ABC", &mut buf).unwrap();
    assert_eq!(s.to_u16_slice_with_nul(), [65, 66, 67, 0]);
    assert_eq!(s.to_u16_slice(), [65, 66, 67]);

    // OK: buf is bigger than needed.
    let s = CStr16::from_str_with_buf("A", &mut buf).unwrap();
    assert_eq!(s.to_u16_slice_with_nul(), [65, 0]);

    // Error: buf is too small.
    assert_eq!(
        CStr16::from_str_with_buf("ABCD", &mut buf).unwrap_err(),
        FromStrWithBufError::BufferTooSmall
    );

    // Error: no room left for the trailing null.
    let mut buf3: Vec<u16> = vec![0; 3];
    assert_eq!(
        CStr16::from_str_with_buf("ABC", &mut buf3).unwrap_err(),
        FromStrWithBufError::BufferTooSmall
    );

    // Error: invalid character.
    assert_eq!(
        CStr16::from_str_with_buf("a😀", &mut buf).unwrap_err(),
        FromStrWithBufError::InvalidChar(1),
    );

    // Error: interior null.
    assert_eq!(
        CStr16::from_str_with_buf("a\0b", &mut buf).unwrap_err(),
        FromStrWithBufError::InteriorNul(1),
    );
}

#[test]
fn test_cstr16_from_u16_with_nul_boundary() {
    // Empty input is not null-terminated.
    assert_eq!(
        CStr16::from_u16_with_nul(&[]).unwrap_err(),
        FromSliceWithNulError::NotNulTerminated
    );

    // A lone null is the empty string.
    let empty = CStr16::from_u16_with_nul(&[0]).unwrap();
    assert_eq!(empty.num_chars(), 0);
    assert!(empty.is_empty());

    // A null before the last unit is rejected at its index.
    assert_eq!(
        CStr16::from_u16_with_nul(&[97, 0, 98, 0]).unwrap_err(),
        FromSliceWithNulError::InteriorNul(1)
    );

    // A surrogate unit is rejected at its index.
    assert_eq!(
        CStr16::from_u16_with_nul(&[0xd800, 0]).unwrap_err(),
        FromSliceWithNulError::InvalidChar(0)
    );

    // Missing terminator.
    assert_eq!(
        CStr16::from_u16_with_nul(&[97, 98]).unwrap_err(),
        FromSliceWithNulError::NotNulTerminated
    );
}

#[test]
fn test_cstr16_until_nul_truncation() {
    // Everything after the first null is discarded, so the extended input
    // yields the same view as the input cut at its null.
    let long = CStr16::from_u16_until_nul(&[97, 0, 98, 0]).unwrap();
    let short = CStr16::from_u16_until_nul(&[97, 0]).unwrap();
    assert_eq!(long.to_u16_slice_with_nul(), short.to_u16_slice_with_nul());
}

#[test]
fn test_cstr16_as_slice() {
    let string = CStr16::from_u16_with_nul(&[97, 0]).unwrap();
    assert_eq!(string.as_slice(), vec![Char16::try_from_char('a').unwrap()]);
    assert_eq!(
        string.as_slice_with_nul(),
        vec![Char16::try_from_char('a').unwrap(), Char16::nul()]
    );
}

#[test]
fn test_cstr16_as_bytes() {
    let string = CStr16::from_u16_with_nul(&[97, 0]).unwrap();
    assert_eq!(string.as_bytes(), vec![b'a', 0, 0, 0]);
}

#[test]
fn test_cstr16_iter() {
    let string = CStr16::from_u16_with_nul(&[97, 98, 0]).unwrap();
    let mut it = string.iter();
    assert_eq!(it.next().unwrap().as_u16(), 97);
    assert_eq!(it.next().unwrap().as_u16(), 98);
    assert!(it.next().is_none());
    assert!(it.next().is_none());

    // Iteration restarts by obtaining a fresh iterator.
    let mut again = string.iter();
    assert_eq!(again.next().unwrap().as_u16(), 97);
}

#[test]
fn test_cstr16_is_ascii() {
    let ascii = CStr16::from_u16_with_nul(&[97, 98, 0]).unwrap();
    assert!(ascii.is_ascii());
    let wide = CStr16::from_u16_with_nul(&[97, 0x00e9, 0]).unwrap();
    assert!(!wide.is_ascii());
}

#[test]
fn test_cstr16_as_str_in_buf() {
    let s = CStr16::from_u16_with_nul(&[97, 98, 99, 0]).unwrap();
    let mut out = String::from("x");
    s.as_str_in_buf(&mut out);
    assert_eq!(out, "xabc");
}

#[test]
fn test_cstr16_round_trip() {
    // Encoding a null-free string of 16-bit-encodable characters and
    // decoding it back reproduces it exactly.
    let mut buf: Vec<u16> = vec![0; 8];
    let s = CStr16::from_str_with_buf("héllo", &mut buf).unwrap();
    assert_eq!(s.to_string(), "héllo");
}

#[test]
fn test_compare_cstr16() {
    let input = CStr16::from_u16_with_nul(&[116, 101, 115, 116, 0]).unwrap();
    assert!(input.eq_str_until_nul("test"));
    assert!(input.eq_str_until_nul(String::from("test").as_str()));

    // now other direction
    assert!(str_eq_until_nul_cstr16(String::from("test").as_str(), &input));
    assert!(str_eq_until_nul_cstr16("test", &input));

    // some more tests
    // this is fine: compare until the first null
    assert!(input.eq_str_until_nul("te\0st"));
    // this is fine
    assert!(input.eq_str_until_nul("test\0"));
    assert!(!input.eq_str_until_nul("hello"));
}

#[test]
fn test_cstr16_eq_std_str() {
    let input = CStr16::from_u16_with_nul(&[116, 101, 115, 116, 0]).unwrap();

    assert!(input.eq_str_until_nul("test"));
    assert!(input.eq_str_until_nul(&"test"));
    assert!(input.eq_str_until_nul(String::from("test").as_str()));

    // now other direction
    assert!(str_eq_until_nul_cstr16(String::from("test").as_str(), &input));
    assert!(str_eq_until_nul_cstr16("test", &input));
}

#[test]
fn test_eq_until_nul_symmetry() {
    // The comparison gives the same verdict whichever side it starts from,
    // in equal and unequal cases alike.
    let ab = CStr16::from_u16_with_nul(&[97, 98, 0]).unwrap();
    assert_eq!(ab.eq_str_until_nul("abc"), str_eq_until_nul_cstr16("abc", &ab));
    assert_eq!(ab.eq_str_until_nul("ax"), str_eq_until_nul_cstr16("ax", &ab));
    assert!(!ab.eq_str_until_nul("ax"));
    assert_eq!(ab.eq_str_until_nul(""), str_eq_until_nul_cstr16("", &ab));
}
