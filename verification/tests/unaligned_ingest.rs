use uefi_strings::{CStr16, UnalignedCStr16Error, UnalignedSlice};

#[test]
fn test_unaligned_cstr16() {
    // The five units of "test\0" as little-endian bytes.
    let bytes: [u8; 10] = [b't', 0, b'e', 0, b's', 0, b't', 0, 0, 0];
    let us = UnalignedSlice::new(&bytes);
    assert_eq!(us.len(), 5);
    assert_eq!(us.read_unit(0), b't' as u16);
    assert_eq!(us.read_unit(4), 0);

    // Test with too small of a buffer.
    let mut buf: Vec<u16> = vec![0; 4];
    assert_eq!(
        us.to_cstr16(&mut buf).unwrap_err(),
        UnalignedCStr16Error::BufferTooSmall
    );

    // Test with a big enough buffer: the result matches the aligned
    // equivalent byte for byte.
    let mut buf5: Vec<u16> = vec![0; 5];
    let s = us.to_cstr16(&mut buf5).unwrap();
    let aligned = CStr16::from_u16_with_nul(&[b't' as u16, b'e' as u16, b's' as u16, b't' as u16, 0])
        .unwrap();
    assert_eq!(s.to_u16_slice_with_nul(), aligned.to_u16_slice_with_nul());
    assert_eq!(s.as_bytes(), aligned.as_bytes());
}

#[test]
fn test_from_unaligned_slice() {
    // The constructor on the view type behaves as the copy-out on the
    // source does.
    let bytes: [u8; 4] = [b'h', 0, 0, 0];
    let us = UnalignedSlice::new(&bytes);
    let mut buf: Vec<u16> = vec![7; 3];
    let s = CStr16::from_unaligned_slice(&us, &mut buf).unwrap();
    assert_eq!(s.to_u16_slice_with_nul(), [b'h' as u16, 0]);
}

#[test]
fn test_unaligned_cstr16_errors() {
    // An interior null is reported at its unit index.
    let interior: [u8; 8] = [97, 0, 0, 0, 98, 0, 0, 0];
    let mut buf: Vec<u16> = vec![0; 4];
    assert_eq!(
        UnalignedSlice::new(&interior).to_cstr16(&mut buf).unwrap_err(),
        UnalignedCStr16Error::InteriorNul(1)
    );

    // A source without any null is not null-terminated.
    let no_nul: [u8; 4] = [97, 0, 98, 0];
    let mut buf2: Vec<u16> = vec![0; 2];
    assert_eq!(
        UnalignedSlice::new(&no_nul).to_cstr16(&mut buf2).unwrap_err(),
        UnalignedCStr16Error::NotNulTerminated
    );

    // A surrogate unit is invalid at its index.
    let surrogate: [u8; 4] = [0x00, 0xd8, 0, 0];
    let mut buf3: Vec<u16> = vec![0; 2];
    assert_eq!(
        UnalignedSlice::new(&surrogate).to_cstr16(&mut buf3).unwrap_err(),
        UnalignedCStr16Error::InvalidChar(0)
    );
}
