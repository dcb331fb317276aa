//! LEB128 variable-width integer codecs: unsigned and signed 32-bit
//! decoding and encoding, with a proved round trip.
//!
//! A value is stored little-endian in 7-bit groups; the high bit of each
//! byte is the continuation flag. Signed decoding sign-extends from the
//! terminating byte's 0x40 bit when the bit-shift position is below 32.

use vstd::prelude::*;

verus! {

use crate::error::BinaryError;

/// Unsigned LEB128 decoding of `bytes`, with the next 7-bit group destined
/// for bit position `shift`. Returns the decoded value and the number of
/// bytes consumed.
pub open spec fn leb_u32_rec(bytes: Seq<u8>, shift: u32) -> Result<(u32, nat), BinaryError>
    decreases bytes.len(),
{
    if bytes.len() == 0 {
        Err(BinaryError::UnexpectedEOF)
    } else {
        let b = bytes[0];
        let piece = ((b & 0x7f) as u32) << shift;
        if b & 0x80 == 0 {
            Ok((piece, 1))
        } else if shift + 7 >= 32 {
            Err(BinaryError::Overflow)
        } else {
            match leb_u32_rec(bytes.skip(1), (shift + 7) as u32) {
                Ok((v, n)) => Ok((piece | v, (n + 1) as nat)),
                Err(e) => Err(e),
            }
        }
    }
}

/// Unsigned LEB128 decoding from the start of `bytes`.
pub open spec fn leb_u32(bytes: Seq<u8>) -> Result<(u32, nat), BinaryError> {
    leb_u32_rec(bytes, 0)
}

/// The unsigned LEB128 encoding of `x`: minimal-length 7-bit groups,
/// continuation-bit terminated.
pub open spec fn leb_u32_enc(x: u32) -> Seq<u8>
    decreases x,
{
    if x < 128 {
        seq![x as u8]
    } else {
        seq![(x % 128 + 128) as u8] + leb_u32_enc((x / 128) as u32)
    }
}

/// Signed LEB128 decoding of `bytes` as a 32-bit two's-complement pattern,
/// with the next group destined for bit position `shift`. Sign extension
/// fills the bits at and above `shift + 7` when the terminating byte has
/// its 0x40 bit set and that position is below 32.
pub open spec fn leb_i32_rec(bytes: Seq<u8>, shift: u32) -> Result<(u32, nat), BinaryError>
    decreases bytes.len(),
{
    if bytes.len() == 0 {
        Err(BinaryError::UnexpectedEOF)
    } else {
        let b = bytes[0];
        let piece = ((b & 0x7f) as u32) << shift;
        if b & 0x80 == 0 {
            if b & 0x40 != 0 && shift + 7 < 32 {
                Ok((piece | (0xffff_ffffu32 << ((shift + 7) as u32)), 1))
            } else {
                Ok((piece, 1))
            }
        } else if shift + 7 >= 32 {
            Err(BinaryError::Overflow)
        } else {
            match leb_i32_rec(bytes.skip(1), (shift + 7) as u32) {
                Ok((v, n)) => Ok((piece | v, (n + 1) as nat)),
                Err(e) => Err(e),
            }
        }
    }
}

/// Signed LEB128 decoding from the start of `bytes`.
pub open spec fn leb_i32(bytes: Seq<u8>) -> Result<(i32, nat), BinaryError> {
    match leb_i32_rec(bytes, 0) {
        Ok((v, n)) => Ok((v as i32, n)),
        Err(e) => Err(e),
    }
}

/// Termination measure for signed LEB128 encoding: the number of
/// arithmetic shifts by 7 until the value settles at 0 or -1 is bounded
/// by this quantity.
pub open spec fn leb_i32_measure(v: i32) -> int {
    if v >= 0 {
        v as int
    } else {
        -(v as int) - 1
    }
}

/// The signed LEB128 encoding of `v`: 7-bit groups of the two's-complement
/// pattern, emitted until the remaining value matches the sign bit of the
/// last group.
pub open spec fn leb_i32_enc(v: i32) -> Seq<u8>
    decreases leb_i32_measure(v),
        via leb_i32_enc_decreases
{
    let b = (v & 0x7f) as u8;
    let next = v >> 7u32;
    if (next == 0 && b & 0x40 == 0) || (next == -1 && b & 0x40 != 0) {
        seq![b]
    } else {
        seq![b | 0x80] + leb_i32_enc(next)
    }
}

/// An arithmetic shift by 7 moves an `i32` strictly toward 0 or -1 unless
/// the encoding terminates.
proof fn lemma_i32_shift7_progress(v: i32)
    by (bit_vector)
    ensures
        !(((v >> 7u32) == 0 && ((v & 0x7f) as u8) & 0x40 == 0) || ((v >> 7u32) == -1 && ((v
            & 0x7f) as u8) & 0x40 != 0)) ==> (v >= 0 ==> (v >> 7u32) >= 0 && (v >> 7u32) < v) && (v
            < 0 ==> (v >> 7u32) < 0 && (v >> 7u32) > v),
{
}

#[via_fn]
proof fn leb_i32_enc_decreases(v: i32) {
    lemma_i32_shift7_progress(v);
}

/// Bitwise-or facts the decoders rely on.
proof fn lemma_u32_or_props()
    by (bit_vector)
    ensures
        forall|a: u32, b: u32, c: u32| #[trigger] ((a | b) | c) == (a | (b | c)),
        forall|a: u32, b: u32| a == 0 ==> #[trigger] (a | b) == b,
{
}

/// Pushing an element is the same as appending a singleton.
proof fn lemma_seq_push_concat<T>(r: Seq<T>, b: T, t: Seq<T>)
    ensures
        r.push(b) == r + seq![b],
        r.push(b) + t == r + (seq![b] + t),
{
    assert(r.push(b) =~= r + seq![b]);
    assert(r.push(b) + t =~= r + (seq![b] + t));
}

/// Skipping one element of a singleton-headed concatenation leaves the
/// tail.
proof fn lemma_cons_skip1<T>(b: T, t: Seq<T>)
    ensures
        (seq![b] + t).skip(1) == t,
{
    assert((seq![b] + t).skip(1) =~= t);
}

/// A successful LEB128 parse consumes between 1 byte and the whole input.
proof fn lemma_leb_u32_rec_bounds(bytes: Seq<u8>, shift: u32)
    ensures
        match leb_u32_rec(bytes, shift) {
            Ok((v, n)) => 1 <= n <= bytes.len(),
            Err(e) => true,
        },
    decreases bytes.len(),
{
    if bytes.len() != 0 {
        let b = bytes[0];
        if b & 0x80 != 0 && shift + 7 < 32 {
            lemma_leb_u32_rec_bounds(bytes.skip(1), (shift + 7) as u32);
        }
    }
}

/// A successful signed LEB128 parse consumes between 1 byte and the whole
/// input.
proof fn lemma_leb_i32_rec_bounds(bytes: Seq<u8>, shift: u32)
    ensures
        match leb_i32_rec(bytes, shift) {
            Ok((v, n)) => 1 <= n <= bytes.len(),
            Err(e) => true,
        },
    decreases bytes.len(),
{
    if bytes.len() != 0 {
        let b = bytes[0];
        if b & 0x80 != 0 && shift + 7 < 32 {
            lemma_leb_i32_rec_bounds(bytes.skip(1), (shift + 7) as u32);
        }
    }
}

/// Decode an unsigned 32-bit LEB128 integer from the start of `input`,
/// returning the value and the number of bytes consumed.
pub fn decode_u32(input: &[u8]) -> (r: Result<(u32, usize), BinaryError>)
    ensures
        match r {
            Ok((v, n)) => leb_u32(input@) == Ok::<(u32, nat), BinaryError>((v, n as nat)) && 1 <= n
                <= input@.len(),
            Err(e) => leb_u32(input@) == Err::<(u32, nat), BinaryError>(e),
        },
{
    proof {
        lemma_u32_or_props();
        lemma_leb_u32_rec_bounds(input@, 0);
        assert(input@.skip(0) =~= input@);
    }
    let mut pos: usize = 0;
    let mut shift: u32 = 0;
    let mut acc: u32 = 0;
    loop
        invariant
            pos <= input@.len(),
            shift <= 28,
            shift % 7 == 0,
            leb_u32(input@) == (match leb_u32_rec(input@.skip(pos as int), shift) {
                Ok((v, n)) => Ok::<(u32, nat), BinaryError>((acc | v, (pos + n) as nat)),
                Err(e) => Err::<(u32, nat), BinaryError>(e),
            }),
        decreases input@.len() - pos,
    {
        proof {
            lemma_u32_or_props();
        }
        if pos >= input.len() {
            assert(input@.skip(pos as int).len() == 0);
            return Err(BinaryError::UnexpectedEOF);
        }
        let b = input[pos];
        assert(input@.skip(pos as int)[0] == b);
        let piece = ((b & 0x7f) as u32) << shift;
        if b & 0x80 == 0 {
            return Ok((acc | piece, pos + 1));
        }
        if shift + 7 >= 32 {
            return Err(BinaryError::Overflow);
        }
        proof {
            assert(input@.skip(pos as int).skip(1) =~= input@.skip(pos as int + 1));
        }
        acc = acc | piece;
        shift = shift + 7;
        pos = pos + 1;
    }
}

/// Decode a signed 32-bit LEB128 integer from the start of `input`,
/// returning the value and the number of bytes consumed.
pub fn decode_i32(input: &[u8]) -> (r: Result<(i32, usize), BinaryError>)
    ensures
        match r {
            Ok((v, n)) => leb_i32(input@) == Ok::<(i32, nat), BinaryError>((v, n as nat)) && 1 <= n
                <= input@.len(),
            Err(e) => leb_i32(input@) == Err::<(i32, nat), BinaryError>(e),
        },
{
    proof {
        lemma_u32_or_props();
        lemma_leb_i32_rec_bounds(input@, 0);
        assert(input@.skip(0) =~= input@);
    }
    let mut pos: usize = 0;
    let mut shift: u32 = 0;
    let mut acc: u32 = 0;
    loop
        invariant
            pos <= input@.len(),
            shift <= 28,
            shift % 7 == 0,
            leb_i32_rec(input@, 0) == (match leb_i32_rec(input@.skip(pos as int), shift) {
                Ok((v, n)) => Ok::<(u32, nat), BinaryError>((acc | v, (pos + n) as nat)),
                Err(e) => Err::<(u32, nat), BinaryError>(e),
            }),
        decreases input@.len() - pos,
    {
        proof {
            lemma_u32_or_props();
        }
        if pos >= input.len() {
            assert(input@.skip(pos as int).len() == 0);
            return Err(BinaryError::UnexpectedEOF);
        }
        let b = input[pos];
        assert(input@.skip(pos as int)[0] == b);
        let piece = ((b & 0x7f) as u32) << shift;
        if b & 0x80 == 0 {
            let mut bits = acc | piece;
            if b & 0x40 != 0 && shift + 7 < 32 {
                bits = bits | (0xffff_ffffu32 << (shift + 7));
            }
            let value: i32 = if bits < 0x8000_0000 {
                bits as i32
            } else {
                ((bits as i64) - 0x1_0000_0000i64) as i32
            };
            proof {
                assert(bits >= 0x8000_0000 ==> ((bits as i64) - 0x1_0000_0000i64) as i32 == bits
                    as i32) by (bit_vector);
            }
            return Ok((value, pos + 1));
        }
        if shift + 7 >= 32 {
            return Err(BinaryError::Overflow);
        }
        proof {
            assert(input@.skip(pos as int).skip(1) =~= input@.skip(pos as int + 1));
        }
        acc = acc | piece;
        shift = shift + 7;
        pos = pos + 1;
    }
}

/// Encode `value` as unsigned LEB128.
pub fn encode_u32(value: u32) -> (r: Vec<u8>)
    ensures
        r@ == leb_u32_enc(value),
{
    let mut result: Vec<u8> = Vec::new();
    let mut v = value;
    loop
        invariant
            leb_u32_enc(value) == result@ + leb_u32_enc(v),
        decreases v,
    {
        let ghost r0 = result@;
        if v < 128 {
            result.push(v as u8);
            proof {
                lemma_seq_push_concat(r0, v as u8, leb_u32_enc(v));
                assert(leb_u32_enc(v) == seq![v as u8]);
            }
            return result;
        }
        let b = (v % 128 + 128) as u8;
        result.push(b);
        proof {
            let v2 = (v / 128) as u32;
            lemma_seq_push_concat(r0, b, leb_u32_enc(v2));
            assert(leb_u32_enc(v) == seq![b] + leb_u32_enc(v2));
        }
        v = v / 128;
    }
}

/// Encode `value` as signed LEB128.
pub fn encode_i32(value: i32) -> (r: Vec<u8>)
    ensures
        r@ == leb_i32_enc(value),
{
    let mut result: Vec<u8> = Vec::new();
    let mut v = value;
    loop
        invariant
            leb_i32_enc(value) == result@ + leb_i32_enc(v),
        decreases leb_i32_measure(v),
    {
        let ghost r0 = result@;
        let byte = (v & 0x7f) as u8;
        let next = v >> 7u32;
        if (next == 0 && byte & 0x40 == 0) || (next == -1 && byte & 0x40 != 0) {
            result.push(byte);
            proof {
                lemma_seq_push_concat(r0, byte, leb_i32_enc(v));
                assert(leb_i32_enc(v) == seq![byte]);
            }
            return result;
        }
        result.push(byte | 0x80);
        proof {
            lemma_i32_shift7_progress(v);
            lemma_seq_push_concat(r0, byte | 0x80, leb_i32_enc(next));
            assert(leb_i32_enc(v) == seq![byte | 0x80] + leb_i32_enc(next));
        }
        v = next;
    }
}

proof fn lemma_leb_u32_rt_rec(x: u32, shift: u32)
    requires
        shift % 7 == 0,
        shift <= 28,
        x <= u32::MAX >> shift,
    ensures
        leb_u32_rec(leb_u32_enc(x), shift) == Ok::<(u32, nat), BinaryError>(
            (x << shift, leb_u32_enc(x).len() as nat),
        ),
    decreases x,
{
    if x < 128 {
        assert((x as u8) & 0x80 == 0 && (((x as u8) & 0x7f) as u32) << shift == x << shift)
            by (bit_vector)
            requires
                x < 128,
        ;
    } else {
        let x2 = (x / 128) as u32;
        let b = (x % 128 + 128) as u8;
        assert(shift <= 21 && b & 0x80 != 0 && ((b & 0x7f) as u32) == x % 128 && x2 <= u32::MAX
            >> ((shift + 7) as u32)) by (bit_vector)
            requires
                shift % 7 == 0,
                shift <= 28,
                x >= 128,
                x <= u32::MAX >> shift,
                x2 == (x / 128) as u32,
                b == (x % 128 + 128) as u8,
        ;
        lemma_leb_u32_rt_rec(x2, (shift + 7) as u32);
        assert(leb_u32_enc(x) == seq![b] + leb_u32_enc(x2));
        lemma_cons_skip1(b, leb_u32_enc(x2));
        assert((seq![b] + leb_u32_enc(x2))[0] == b);
        assert(((x % 128) as u32) << shift | (x2 << ((shift + 7) as u32)) == x << shift)
            by (bit_vector)
            requires
                shift <= 21,
                x2 == (x / 128) as u32,
        ;
    }
}

/// LEB128 round trip, unsigned: decoding the encoding of any `u32` yields
/// the value back, consuming exactly the whole encoding.
pub proof fn lemma_leb128_u32_round_trip(x: u32)
    ensures
        leb_u32(leb_u32_enc(x)) == Ok::<(u32, nat), BinaryError>(
            (x, leb_u32_enc(x).len() as nat),
        ),
{
    assert(x <= u32::MAX >> 0u32 && x << 0u32 == x) by (bit_vector);
    lemma_leb_u32_rt_rec(x, 0);
}

proof fn lemma_leb_i32_rt_rec(v: i32, shift: u32)
    requires
        shift % 7 == 0,
        shift <= 28,
        (i32::MIN >> shift) <= v <= (i32::MAX >> shift),
    ensures
        leb_i32_rec(leb_i32_enc(v), shift) == Ok::<(u32, nat), BinaryError>(
            ((v as u32) << shift, leb_i32_enc(v).len() as nat),
        ),
    decreases leb_i32_measure(v),
{
    let b = (v & 0x7f) as u8;
    let next = v >> 7u32;
    if (next == 0 && b & 0x40 == 0) || (next == -1 && b & 0x40 != 0) {
        assert({
            let piece = ((b & 0x7f) as u32) << shift;
            &&& b & 0x80 == 0
            &&& (b & 0x40 != 0 && shift + 7 < 32 ==> (piece | (0xffff_ffffu32 << ((shift
                + 7) as u32))) == (v as u32) << shift)
            &&& (!(b & 0x40 != 0 && shift + 7 < 32) ==> piece == (v as u32) << shift)
        }) by (bit_vector)
            requires
                shift % 7 == 0,
                shift <= 28,
                b == (v & 0x7f) as u8,
                ((v >> 7u32) == 0 && b & 0x40 == 0) || ((v >> 7u32) == -1 && b & 0x40 != 0),
        ;
    } else {
        lemma_i32_shift7_progress(v);
        assert(shift <= 21 && (b | 0x80) & 0x80 != 0 && ((b | 0x80) & 0x7f) == b && (i32::MIN
            >> ((shift + 7) as u32)) <= (v >> 7u32) <= (i32::MAX >> ((shift + 7) as u32)))
            by (bit_vector)
            requires
                shift % 7 == 0,
                shift <= 28,
                (i32::MIN >> shift) <= v <= (i32::MAX >> shift),
                b == (v & 0x7f) as u8,
                !(((v >> 7u32) == 0 && b & 0x40 == 0) || ((v >> 7u32) == -1 && b & 0x40 != 0)),
        ;
        lemma_leb_i32_rt_rec(next, (shift + 7) as u32);
        assert(leb_i32_enc(v) == seq![b | 0x80] + leb_i32_enc(next));
        lemma_cons_skip1(b | 0x80, leb_i32_enc(next));
        assert((seq![b | 0x80] + leb_i32_enc(next))[0] == b | 0x80);
        assert((((b | 0x80) & 0x7f) as u32) << shift | (((v >> 7u32) as u32) << ((shift
            + 7) as u32)) == (v as u32) << shift) by (bit_vector)
            requires
                shift <= 21,
                b == (v & 0x7f) as u8,
        ;
    }
}

/// LEB128 round trip, signed: decoding the encoding of any `i32` yields
/// the value back, consuming exactly the whole encoding.
pub proof fn lemma_leb128_i32_round_trip(v: i32)
    ensures
        leb_i32(leb_i32_enc(v)) == Ok::<(i32, nat), BinaryError>(
            (v, leb_i32_enc(v).len() as nat),
        ),
{
    assert((i32::MIN >> 0u32) <= v <= (i32::MAX >> 0u32) && (v as u32) << 0u32 == v as u32 && ((
    v as u32) as i32) == v) by (bit_vector);
    lemma_leb_i32_rt_rec(v, 0);
}

} // verus!
