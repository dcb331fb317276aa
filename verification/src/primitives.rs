//! Primitive parsers: fixed tags (magic, version), single bytes, LEB128
//! integers with locations, names, and section headers. Every parser
//! takes the input buffer and an absolute position, and returns the
//! decoded value wrapped with the byte range it came from, together with
//! the position after it.

use vstd::prelude::*;

verus! {

broadcast use vstd::std_specs::vec::group_vec_axioms, vstd::seq::group_seq_axioms;

use crate::error::{BinaryError, DecodeError};
use crate::leb128::{decode_u32, leb_u32};
use crate::location::{Located, SourceLocation};

/// The four-byte module magic `00 61 73 6D`.
pub open spec fn magic_bytes() -> Seq<u8> {
    seq![0x00u8, 0x61u8, 0x73u8, 0x6du8]
}

/// The four-byte version `01 00 00 00`.
pub open spec fn version_bytes() -> Seq<u8> {
    seq![0x01u8, 0x00u8, 0x00u8, 0x00u8]
}

/// Consume one byte.
pub fn parse_byte(input: &[u8], pos: usize) -> (r: Result<(Located<u8>, usize), DecodeError>)
    ensures
        r is Ok <==> pos < input@.len(),
        (r matches Ok((lv, p2)) ==> lv.value == input@[pos as int] && lv.location
            == SourceLocation { offset: pos, length: 1 } && p2 == pos + 1),
        (r matches Err(e) ==> e.kind == BinaryError::UnexpectedEOF && e.location.offset == pos),
{
    if pos >= input.len() {
        return Err(DecodeError::new(BinaryError::UnexpectedEOF, pos, 0));
    }
    Ok((Located::new(input[pos], SourceLocation::new(pos, 1)), pos + 1))
}

/// Read four bytes at `pos` and compare them with `expect`; used by the
/// magic and version parsers.
fn parse_tag4(input: &[u8], pos: usize, expect: [u8; 4]) -> (r: Result<[u8; 4], ()>)
    ensures
        (r is Ok <==> pos + 4 <= input@.len() && input@.subrange(pos as int, pos + 4) == expect@),
        (r matches Ok(v) ==> v == expect),
{
    if pos >= input.len() || input.len() - pos < 4 {
        proof {
            assert(pos + 4 > input@.len());
        }
        return Err(());
    }
    let b0 = input[pos];
    let b1 = input[pos + 1];
    let b2 = input[pos + 2];
    let b3 = input[pos + 3];
    if b0 == expect[0] && b1 == expect[1] && b2 == expect[2] && b3 == expect[3] {
        proof {
            assert(input@.subrange(pos as int, pos + 4) =~= expect@);
        }
        Ok(expect)
    } else {
        proof {
            assert(input@.subrange(pos as int, pos + 4)[if b0 != expect@[0] {
                0int
            } else if b1 != expect@[1] {
                1int
            } else if b2 != expect@[2] {
                2int
            } else {
                3int
            }] != expect@[if b0 != expect@[0] {
                0int
            } else if b1 != expect@[1] {
                1int
            } else if b2 != expect@[2] {
                2int
            } else {
                3int
            }]);
        }
        Err(())
    }
}

/// Consume exactly four bytes and require the module magic.
pub fn parse_magic(input: &[u8], pos: usize) -> (r: Result<(Located<[u8; 4]>, usize), DecodeError>)
    ensures
        r is Ok <==> pos + 4 <= input@.len() && input@.subrange(pos as int, pos + 4)
            == magic_bytes(),
        (r matches Ok((lv, p2)) ==> lv.value@ == magic_bytes() && lv.location == SourceLocation {
            offset: pos,
            length: 4,
        } && p2 == pos + 4),
        (r matches Err(e) ==> e.location.offset == pos && e.kind == (if pos + 4 <= input@.len() {
            BinaryError::InvalidMagic
        } else {
            BinaryError::UnexpectedEOF
        })),
{
    if pos >= input.len() || input.len() - pos < 4 {
        proof {
            assert(pos + 4 > input@.len());
        }
        return Err(DecodeError::new(BinaryError::UnexpectedEOF, pos, 0));
    }
    match parse_tag4(input, pos, [0x00, 0x61, 0x73, 0x6d]) {
        Ok(v) => {
            proof {
                assert([0x00u8, 0x61u8, 0x73u8, 0x6du8]@ =~= magic_bytes());
            }
            Ok((Located::new(v, SourceLocation::new(pos, 4)), pos + 4))
        },
        Err(_) => Err(DecodeError::new(BinaryError::InvalidMagic, pos, 4)),
    }
}

/// Consume exactly four bytes and require the supported version.
pub fn parse_version(input: &[u8], pos: usize) -> (r: Result<
    (Located<[u8; 4]>, usize),
    DecodeError,
>)
    ensures
        r is Ok <==> pos + 4 <= input@.len() && input@.subrange(pos as int, pos + 4)
            == version_bytes(),
        (r matches Ok((lv, p2)) ==> lv.value@ == version_bytes() && lv.location == SourceLocation {
            offset: pos,
            length: 4,
        } && p2 == pos + 4),
        (r matches Err(e) ==> e.location.offset == pos && e.kind == (if pos + 4 <= input@.len() {
            BinaryError::InvalidVersion
        } else {
            BinaryError::UnexpectedEOF
        })),
{
    if pos >= input.len() || input.len() - pos < 4 {
        proof {
            assert(pos + 4 > input@.len());
        }
        return Err(DecodeError::new(BinaryError::UnexpectedEOF, pos, 0));
    }
    match parse_tag4(input, pos, [0x01, 0x00, 0x00, 0x00]) {
        Ok(v) => {
            proof {
                assert([0x01u8, 0x00u8, 0x00u8, 0x00u8]@ =~= version_bytes());
            }
            Ok((Located::new(v, SourceLocation::new(pos, 4)), pos + 4))
        },
        Err(_) => Err(DecodeError::new(BinaryError::InvalidVersion, pos, 4)),
    }
}

/// Decode an unsigned LEB128 integer at `pos`, wrapped with the byte
/// range of its encoding.
pub fn parse_leb128_u32(input: &[u8], pos: usize) -> (r: Result<
    (Located<u32>, usize),
    DecodeError,
>)
    requires
        pos <= input@.len(),
    ensures
        (r matches Ok((lv, p2)) ==> leb_u32(input@.skip(pos as int)) == Ok::<
            (u32, nat),
            BinaryError,
        >((lv.value, (p2 - pos) as nat)) && pos < p2 <= input@.len() && lv.location
            == SourceLocation { offset: pos, length: (p2 - pos) as usize }),
        (r matches Err(e) ==> leb_u32(input@.skip(pos as int)) == Err::<(u32, nat), BinaryError>(
            e.kind,
        ) && e.location.offset == pos),
{
    let rest = &input[pos..input.len()];
    proof {
        assert(rest@ =~= input@.skip(pos as int));
    }
    match decode_u32(rest) {
        Ok((v, n)) => Ok((Located::new(v, SourceLocation::new(pos, n)), pos + n)),
        Err(k) => Err(DecodeError::new(k, pos, 0)),
    }
}

/// What a byte sequence holds as UTF-8 text, when it is valid UTF-8;
/// decided by the bytes alone.
pub uninterp spec fn utf8_decode(bytes: Seq<u8>) -> Option<Seq<char>>;

/// Relies on core::str::from_utf8: whether a byte sequence is valid
/// UTF-8, and which characters it holds, depend on the bytes alone.
#[verifier::external_body]
fn bytes_to_utf8(bytes: &[u8]) -> (r: Option<String>)
    ensures
        (match r {
            Some(s) => utf8_decode(bytes@) == Some(s@),
            None => utf8_decode(bytes@) is None,
        }),
{
    match core::str::from_utf8(bytes) {
        Ok(s) => Some(s.to_string()),
        Err(_) => None,
    }
}

/// What parsing a name at `pos` yields: the LEB128 length prefix, then
/// that many bytes, which must be valid UTF-8. On success: the decoded
/// characters, where the name's bytes start, and where they end.
pub open spec fn name_parse(bytes: Seq<u8>, pos: int) -> Result<(Seq<char>, int, int), BinaryError> {
    match leb_u32(bytes.skip(pos)) {
        Ok((n, c)) => if pos + c + n > bytes.len() {
            Err(BinaryError::UnexpectedEOF)
        } else {
            match utf8_decode(bytes.subrange(pos + c, pos + c + n)) {
                Some(text) => Ok((text, pos + c, pos + c + n)),
                None => Err(BinaryError::InvalidUtf8),
            }
        },
        Err(e) => Err(e),
    }
}

/// Parse a name: a LEB128 length followed by that many bytes of UTF-8.
/// The location covers the name's bytes, after the length prefix.
pub fn parse_name(input: &[u8], pos: usize) -> (r: Result<(Located<String>, usize), DecodeError>)
    requires
        pos <= input@.len(),
    ensures
        (r matches Ok((lv, p2)) ==> name_parse(input@, pos as int) == Ok::<
            (Seq<char>, int, int),
            BinaryError,
        >((lv.value@, lv.location.offset as int, p2 as int)) && lv.location.offset
            + lv.location.length == p2 && pos <= lv.location.offset && p2 <= input@.len()),
        (r matches Err(e) ==> name_parse(input@, pos as int) == Err::<
            (Seq<char>, int, int),
            BinaryError,
        >(e.kind) && e.location.offset <= input@.len()),
{
    let (len, after_len) = match parse_leb128_u32(input, pos) {
        Ok(v) => v,
        Err(e) => {
            return Err(e);
        },
    };
    let n = len.value;
    if n as usize > input.len() - after_len {
        return Err(DecodeError::new(BinaryError::UnexpectedEOF, after_len, 0));
    }
    let name_end = after_len + n as usize;
    let bytes = &input[after_len..name_end];
    match bytes_to_utf8(bytes) {
        Some(s) => {
            proof {
                assert(bytes@ == input@.subrange(after_len as int, after_len + n));
                assert(pos + (after_len - pos) == after_len);
            }
            Ok((Located::new(s, SourceLocation::new(after_len, n as usize)), name_end))
        },
        None => Err(DecodeError::new(BinaryError::InvalidUtf8, after_len, n as usize)),
    }
}

/// Parse a section header: the id byte, then the LEB128 payload length.
pub fn parse_section_header(input: &[u8], pos: usize) -> (r: Result<
    ((Located<u8>, Located<u32>), usize),
    DecodeError,
>)
    requires
        pos <= input@.len(),
    ensures
        (r matches Ok(((id, length), p2)) ==> id.value == input@[pos as int] && id.location
            == SourceLocation { offset: pos, length: 1 } && leb_u32(input@.skip(pos + 1)) == Ok::<
            (u32, nat),
            BinaryError,
        >((length.value, (p2 - pos - 1) as nat)) && length.location == (SourceLocation {
            offset: (pos + 1) as usize,
            length: (p2 - pos - 1) as usize,
        }) && pos + 1 < p2 <= input@.len()),
        (r matches Err(e) ==> e.location.offset <= input@.len() && (pos >= input@.len() ==> e.kind
            == BinaryError::UnexpectedEOF) && (pos < input@.len() ==> leb_u32(
            input@.skip(pos + 1),
        ) == Err::<(u32, nat), BinaryError>(e.kind))),
{
    let (id, after_id) = match parse_byte(input, pos) {
        Ok(v) => v,
        Err(e) => {
            return Err(e);
        },
    };
    match parse_leb128_u32(input, after_id) {
        Ok((length, p2)) => Ok(((id, length), p2)),
        Err(e) => Err(e),
    }
}

} // verus!
