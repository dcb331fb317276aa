use wasmvm::error::BinaryError;
use wasmvm::primitives::{
    parse_byte, parse_leb128_u32, parse_magic, parse_name, parse_section_header, parse_version,
};

#[test]
fn test_parse_byte_location() {
    let input = [0x42, 0xFF];
    let (byte, after) = parse_byte(&input, 0).unwrap();
    assert_eq!(byte.value, 0x42);
    assert_eq!(byte.location.offset, 0);
    assert_eq!(byte.location.length, 1);
    assert_eq!(&input[after..], &[0xFFu8]);
}

#[test]
fn test_parse_magic_location() {
    let input = [0x00, 0x61, 0x73, 0x6D, 0x01];
    let (magic, after) = parse_magic(&input, 0).unwrap();
    assert_eq!(magic.value, [0x00, 0x61, 0x73, 0x6D]);
    assert_eq!(magic.location.offset, 0);
    assert_eq!(magic.location.length, 4);
    assert_eq!(&input[after..], &[0x01u8]);
}

#[test]
fn test_parse_magic_rejects_bad_tag() {
    let input = [0x00, 0x61, 0x73, 0x6E];
    let err = parse_magic(&input, 0).unwrap_err();
    assert_eq!(err.kind, BinaryError::InvalidMagic);
}

#[test]
fn test_parse_version_location() {
    let input = [0x01, 0x00, 0x00, 0x00, 0xFF];
    let (version, after) = parse_version(&input, 0).unwrap();
    assert_eq!(version.value, [0x01, 0x00, 0x00, 0x00]);
    assert_eq!(version.location.offset, 0);
    assert_eq!(version.location.length, 4);
    assert_eq!(&input[after..], &[0xFFu8]);
}

#[test]
fn test_parse_version_rejects_bad_tag() {
    let input = [0x02, 0x00, 0x00, 0x00];
    let err = parse_version(&input, 0).unwrap_err();
    assert_eq!(err.kind, BinaryError::InvalidVersion);
}

#[test]
fn test_parse_leb128_u32_small_location() {
    let input = [0x7F, 0xFF];
    let (value, after) = parse_leb128_u32(&input, 0).unwrap();
    assert_eq!(value.value, 127);
    assert_eq!(value.location.offset, 0);
    assert_eq!(value.location.length, 1);
    assert_eq!(&input[after..], &[0xFFu8]);
}

#[test]
fn test_parse_leb128_u32_medium_location() {
    let input = [0x80, 0x01, 0xFF];
    let (value, after) = parse_leb128_u32(&input, 0).unwrap();
    assert_eq!(value.value, 128);
    assert_eq!(value.location.offset, 0);
    assert_eq!(value.location.length, 2);
    assert_eq!(&input[after..], &[0xFFu8]);
}

#[test]
fn test_parse_leb128_u32_large_location() {
    let input = [0xFF, 0xFF, 0xFF, 0xFF, 0x0F, 0xFF];
    let (value, after) = parse_leb128_u32(&input, 0).unwrap();
    assert_eq!(value.value, u32::MAX);
    assert_eq!(value.location.offset, 0);
    assert_eq!(value.location.length, 5);
    assert_eq!(&input[after..], &[0xFFu8]);
}

#[test]
fn test_parse_name_location() {
    let input = [0x03, 0x41, 0x42, 0x43, 0xFF];
    let (name, after) = parse_name(&input, 0).unwrap();
    assert_eq!(name.value, "ABC");
    assert_eq!(name.location.offset, 1);
    assert_eq!(name.location.length, 3);
    assert_eq!(&input[after..], &[0xFFu8]);
}

#[test]
fn test_parse_name_rejects_bad_utf8() {
    let input = [0x02, 0xC0, 0xC0];
    let err = parse_name(&input, 0).unwrap_err();
    assert_eq!(err.kind, BinaryError::InvalidUtf8);
}

#[test]
fn test_parse_name_rejects_short_input() {
    // The length prefix asks for five bytes; only two follow.
    let input = [0x05, 0x41, 0x42];
    let err = parse_name(&input, 0).unwrap_err();
    assert_eq!(err.kind, BinaryError::UnexpectedEOF);
}

#[test]
fn test_parse_name_propagates_length_error() {
    // The length prefix itself is an unterminated LEB128 integer.
    let input = [0x80];
    let err = parse_name(&input, 0).unwrap_err();
    assert_eq!(err.kind, BinaryError::UnexpectedEOF);
}

#[test]
fn test_parse_section_header_location() {
    let input = [0x01, 0x02, 0xFF];
    let ((id, length), after) = parse_section_header(&input, 0).unwrap();
    assert_eq!(id.value, 0x01);
    assert_eq!(id.location.offset, 0);
    assert_eq!(length.value, 2);
    assert_eq!(length.location.offset, 1);
    assert_eq!(&input[after..], &[0xFFu8]);
}

#[test]
fn test_locations_nest_within_parents() {
    // Sub-object locations lie inside the span the parent consumed.
    let input = [0x05, 0x80, 0x01, 0x41, 0x42, 0x43, 0x44, 0x45];
    let ((id, length), after) = parse_section_header(&input, 0).unwrap();
    assert!(id.location.offset >= 0 && id.location.end() <= after);
    assert!(length.location.offset >= id.location.end());
    assert!(length.location.end() <= after);
    let name_bytes = [0x04, 0x42, 0x43, 0x44, 0x45];
    let (name, after2) = parse_name(&name_bytes, 0).unwrap();
    assert_eq!(name.value, "BCDE");
    assert!(name.location.end() <= after2);
}
