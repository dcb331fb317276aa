use wasmvm::error::BinaryError;
use wasmvm::leb128::{decode_i32, decode_u32, encode_i32, encode_u32};

#[test]
fn test_decode_u32_zero() {
    let input = [0x00];
    let (value, used) = decode_u32(&input).unwrap();
    assert_eq!(value, 0);
    assert_eq!(input.len() - used, 0);
}

#[test]
fn test_decode_u32_small() {
    let input = [0x7F];
    let (value, used) = decode_u32(&input).unwrap();
    assert_eq!(value, 127);
    assert_eq!(input.len() - used, 0);
}

#[test]
fn test_decode_u32_two_bytes() {
    let input = [0x80, 0x01];
    let (value, used) = decode_u32(&input).unwrap();
    assert_eq!(value, 128);
    assert_eq!(input.len() - used, 0);
}

#[test]
fn test_decode_u32_three_bytes() {
    // 0 + (1 << 7) + (1 << 14)
    let input = [0x80, 0x81, 0x01];
    let (value, used) = decode_u32(&input).unwrap();
    assert_eq!(value, 16512);
    assert_eq!(input.len() - used, 0);
}

#[test]
fn test_decode_u32_max() {
    let input = [0xFF, 0xFF, 0xFF, 0xFF, 0x0F];
    let (value, used) = decode_u32(&input).unwrap();
    assert_eq!(value, u32::MAX);
    assert_eq!(input.len() - used, 0);
}

#[test]
fn test_decode_i32_zero() {
    let input = [0x00];
    let (value, used) = decode_i32(&input).unwrap();
    assert_eq!(value, 0);
    assert_eq!(input.len() - used, 0);
}

#[test]
fn test_decode_i32_positive() {
    let input = [0x7F];
    let (value, used) = decode_i32(&input).unwrap();
    assert_eq!(value, -1);
    assert_eq!(used, 1);
    let input2 = [0x3F];
    let (value2, _) = decode_i32(&input2).unwrap();
    assert_eq!(value2, 63);
}

#[test]
fn test_decode_i32_minus_two() {
    let input = [0x7E];
    let (value, used) = decode_i32(&input).unwrap();
    assert_eq!(value, -2);
    assert_eq!(input.len() - used, 0);
}

#[test]
fn test_decode_i32_min() {
    let input = [0x80, 0x80, 0x80, 0x80, 0x78];
    let (value, used) = decode_i32(&input).unwrap();
    assert_eq!(value, i32::MIN);
    assert_eq!(input.len() - used, 0);
}

#[test]
fn test_encode_u32_zero() {
    let result = encode_u32(0);
    assert_eq!(result, [0x00]);
}

#[test]
fn test_encode_u32_small() {
    let result = encode_u32(127);
    assert_eq!(result, [0x7F]);
}

#[test]
fn test_encode_u32_two_bytes() {
    let result = encode_u32(128);
    assert_eq!(result, [0x80, 0x01]);
}

#[test]
fn test_encode_u32_max() {
    let result = encode_u32(u32::MAX);
    assert_eq!(result, [0xFF, 0xFF, 0xFF, 0xFF, 0x0F]);
}

#[test]
fn test_encode_i32_zero() {
    let result = encode_i32(0);
    assert_eq!(result, [0x00]);
}

#[test]
fn test_encode_i32_positive() {
    let result = encode_i32(127);
    assert_eq!(result, [0xFF, 0x00]);
}

#[test]
fn test_encode_i32_negative() {
    let result = encode_i32(-2);
    assert_eq!(result, [0x7E]);
}

#[test]
fn test_roundtrip_u32_values() {
    let test_values = vec![0, 1, 127, 128, 255, 256, 65535, 65536, u32::MAX];

    for value in test_values {
        let encoded = encode_u32(value);
        let (decoded, used) = decode_u32(&encoded).unwrap();
        assert_eq!(value, decoded);
        assert_eq!(encoded.len() - used, 0);
    }
}

#[test]
fn test_roundtrip_i32_values() {
    let test_values = vec![
        0,
        1,
        127,
        128,
        255,
        256,
        -1,
        -2,
        -127,
        -128,
        i32::MIN,
        i32::MAX,
    ];

    for value in test_values {
        let encoded = encode_i32(value);
        let (decoded, used) = decode_i32(&encoded).unwrap();
        assert_eq!(value, decoded);
        assert_eq!(encoded.len() - used, 0);
    }
}

#[test]
fn test_decode_u32_incomplete() {
    let input = [0x80];
    let result = decode_u32(&input);
    assert!(result.is_err());
    assert_eq!(result.unwrap_err(), BinaryError::UnexpectedEOF);
}

#[test]
fn test_decode_u32_too_large() {
    let input = [0x80, 0x80, 0x80, 0x80, 0x80, 0x80];
    let result = decode_u32(&input);
    assert!(result.is_err());
    assert_eq!(result.unwrap_err(), BinaryError::Overflow);
}

#[test]
fn test_decode_i32_too_large() {
    let input = [0x80, 0x80, 0x80, 0x80, 0x80, 0x80];
    let result = decode_i32(&input);
    assert_eq!(result.unwrap_err(), BinaryError::Overflow);
}

#[test]
fn test_decode_u32_non_minimal_accepted() {
    // A non-minimal encoding of 1 must still decode.
    let input = [0x81, 0x00];
    let (value, used) = decode_u32(&input).unwrap();
    assert_eq!(value, 1);
    assert_eq!(used, 2);
}
