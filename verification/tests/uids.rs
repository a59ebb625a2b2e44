//! Fresh study keys: the little-endian value and its decimal rendering.

use milvue_rs::uid::generate_dicom_uid;
use milvue_rs::uid::uid_from_bytes;

#[test]
fn zero_bytes() {
    let bytes = vec![0u8; 16];
    assert_eq!(uid_from_bytes(&bytes), "2.25.0");
}

#[test]
fn one_byte_value() {
    let mut bytes = vec![0u8; 16];
    bytes[0] = 255;
    assert_eq!(uid_from_bytes(&bytes), "2.25.255");
}

#[test]
fn little_endian_order() {
    let mut bytes = vec![0u8; 16];
    bytes[0] = 1;
    bytes[1] = 1;
    assert_eq!(uid_from_bytes(&bytes), "2.25.257");
}

#[test]
fn largest_value() {
    let bytes = vec![255u8; 16];
    assert_eq!(
        uid_from_bytes(&bytes),
        "2.25.340282366920938463463374607431768211455"
    );
}

#[test]
fn generated_uid_has_the_reserved_root_and_digits() {
    let uid = generate_dicom_uid();
    assert!(uid.starts_with("2.25."));
    let digits = &uid["2.25.".len()..];
    assert!(!digits.is_empty());
    assert!(digits.bytes().all(|b| b.is_ascii_digit()));
    if digits.len() > 1 {
        assert!(!digits.starts_with('0'));
    }
}
