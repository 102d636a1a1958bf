//! Boot check errors and the fixed-capacity string fields of the layout snapshot.

use aipervisor::boot_check::{
    decode_fixed_string, encode_fixed_string, map_ept_error, BootCheckError, BootCheckErrorKind,
};
use aipervisor::ept::error::{EptError, EptErrorKind};

#[test]
fn boot_check_error_display_includes_kind() {
    let err = BootCheckError::new(BootCheckErrorKind::BootAbi, "bad digest");
    assert!(err.to_string().contains("boot abi error"));
}

#[test]
fn boot_check_error_text_exact_values() {
    assert_eq!(BootCheckError::new(BootCheckErrorKind::BootAbi, "bad digest").to_string(), "boot abi error: bad digest");
    assert_eq!(BootCheckErrorKind::Observation.to_string(), "boot observation error");
    assert_eq!(BootCheckErrorKind::Platform.to_string(), "boot platform error");
}

#[test]
fn map_error_helpers_wrap_platform_failures() {
    let ept = map_ept_error(EptError::new(EptErrorKind::Planning, "ept plan"));
    assert_eq!(ept.kind, BootCheckErrorKind::Platform);
    assert!(ept.message.contains("ept plan"));
}

#[test]
fn fixed_string_round_trips() {
    let (len, field) = encode_fixed_string::<16>("in").expect("encode");
    assert_eq!(len, 2);
    assert_eq!(&field[..2], b"in");
    assert!(field[2..].iter().all(|&b| b == 0));
    assert_eq!(decode_fixed_string::<16>(len, &field).expect("decode"), "in");
}

#[test]
fn fixed_string_round_trips_multibyte_text_at_capacity() {
    let (len, field) = encode_fixed_string::<7>("tap→0").expect("encode");
    assert_eq!(len, 7);
    assert_eq!(decode_fixed_string::<7>(len, &field).expect("decode"), "tap→0");
}

#[test]
fn fixed_string_rejects_oversized_value() {
    let err = encode_fixed_string::<4>("netdev0").expect_err("too long");
    assert_eq!(err.kind, BootCheckErrorKind::Platform);
    assert_eq!(err.message, "layout snapshot string exceeds fixed capacity");
}

#[test]
fn fixed_string_decode_rejects_bad_length_and_utf8() {
    let field = [b'a', b'b', 0xFF, 0];
    let err = decode_fixed_string::<4>(5, &field).expect_err("length");
    assert_eq!(err.message, "layout snapshot string length out of bounds");
    let err = decode_fixed_string::<4>(3, &field).expect_err("utf8");
    assert_eq!(err.kind, BootCheckErrorKind::Platform);
    assert_eq!(err.message, "layout snapshot string is not valid UTF-8");
    assert_eq!(decode_fixed_string::<4>(2, &field).expect("prefix"), "ab");
}
