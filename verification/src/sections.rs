//! Section decoders: value and function types, limits, table and memory
//! types, locals, instructions, and the type, function and code sections.
//!
//! Each grammar production has a specification parser over the byte
//! sequence (`sp_*`), and an executable parser proved to return exactly
//! what the specification parser says, consuming the same bytes and
//! failing with the same error kind.

use vstd::prelude::*;

verus! {

broadcast use vstd::std_specs::vec::group_vec_axioms, vstd::seq::group_seq_axioms;

use crate::error::{BinaryError, DecodeError};
use crate::leb128::{decode_i32, decode_u32, leb_i32, leb_u32};
use crate::module::{Code, Expr};
use crate::types::{
    instr_view, instrs_view, BlockType, BlockTypeV, FuncType, Instr, InstrV, Limits, MemType,
    RefType, TableType, Ty, TyV, ValType,
};

/// Unsigned LEB128 at an absolute position.
pub open spec fn sp_u32(bytes: Seq<u8>, pos: int) -> Result<(u32, int), BinaryError> {
    match leb_u32(bytes.skip(pos)) {
        Ok((v, n)) => Ok((v, pos + n)),
        Err(e) => Err(e),
    }
}

/// Signed LEB128 at an absolute position.
pub open spec fn sp_i32(bytes: Seq<u8>, pos: int) -> Result<(i32, int), BinaryError> {
    match leb_i32(bytes.skip(pos)) {
        Ok((v, n)) => Ok((v, pos + n)),
        Err(e) => Err(e),
    }
}

/// The value type a tag byte denotes.
pub open spec fn valtype_of(b: u8) -> Option<ValType> {
    if b == 0x7f {
        Some(ValType::I32)
    } else if b == 0x7e {
        Some(ValType::I64)
    } else if b == 0x7d {
        Some(ValType::F32)
    } else if b == 0x7c {
        Some(ValType::F64)
    } else if b == 0x7b {
        Some(ValType::V128)
    } else if b == 0x70 {
        Some(ValType::FuncRef)
    } else if b == 0x6f {
        Some(ValType::ExternRef)
    } else {
        None
    }
}

/// The reference type a tag byte denotes.
pub open spec fn reftype_of(b: u8) -> Option<RefType> {
    if b == 0x70 {
        Some(RefType::FuncRef)
    } else if b == 0x6f {
        Some(RefType::ExternRef)
    } else {
        None
    }
}

/// One value type: a single tag byte.
pub open spec fn sp_valtype(bytes: Seq<u8>, pos: int) -> Result<(ValType, int), BinaryError> {
    if pos >= bytes.len() {
        Err(BinaryError::UnexpectedEOF)
    } else {
        match valtype_of(bytes[pos]) {
            Some(v) => Ok((v, pos + 1)),
            None => Err(BinaryError::TypeMismatch),
        }
    }
}

/// `n` further value types, after those already in `acc`.
pub open spec fn sp_valtypes(bytes: Seq<u8>, pos: int, n: nat, acc: Seq<ValType>) -> Result<
    (Seq<ValType>, int),
    BinaryError,
>
    decreases n,
{
    if n == 0 {
        Ok((acc, pos))
    } else {
        match sp_valtype(bytes, pos) {
            Ok((v, p2)) => sp_valtypes(bytes, p2, (n - 1) as nat, acc.push(v)),
            Err(e) => Err(e),
        }
    }
}

/// A length-prefixed vector of value types.
pub open spec fn sp_valtype_vec(bytes: Seq<u8>, pos: int) -> Result<
    (Seq<ValType>, int),
    BinaryError,
> {
    match sp_u32(bytes, pos) {
        Ok((n, p2)) => sp_valtypes(bytes, p2, n as nat, Seq::empty()),
        Err(e) => Err(e),
    }
}

/// A function type: `0x60`, then the parameter and result vectors.
pub open spec fn sp_functype(bytes: Seq<u8>, pos: int) -> Result<
    ((Seq<ValType>, Seq<ValType>), int),
    BinaryError,
> {
    if pos >= bytes.len() {
        Err(BinaryError::UnexpectedEOF)
    } else if bytes[pos] != 0x60 {
        Err(BinaryError::TypeMismatch)
    } else {
        match sp_valtype_vec(bytes, pos + 1) {
            Ok((params, p2)) => match sp_valtype_vec(bytes, p2) {
                Ok((results, p3)) => Ok(((params, results), p3)),
                Err(e) => Err(e),
            },
            Err(e) => Err(e),
        }
    }
}

/// `n` further function types.
pub open spec fn sp_functypes(
    bytes: Seq<u8>,
    pos: int,
    n: nat,
    acc: Seq<(Seq<ValType>, Seq<ValType>)>,
) -> Result<(Seq<(Seq<ValType>, Seq<ValType>)>, int), BinaryError>
    decreases n,
{
    if n == 0 {
        Ok((acc, pos))
    } else {
        match sp_functype(bytes, pos) {
            Ok((ft, p2)) => sp_functypes(bytes, p2, (n - 1) as nat, acc.push(ft)),
            Err(e) => Err(e),
        }
    }
}

/// The type section: a length-prefixed vector of function types.
pub open spec fn sp_type_section(bytes: Seq<u8>, pos: int) -> Result<
    (Seq<(Seq<ValType>, Seq<ValType>)>, int),
    BinaryError,
> {
    match sp_u32(bytes, pos) {
        Ok((n, p2)) => sp_functypes(bytes, p2, n as nat, Seq::empty()),
        Err(e) => Err(e),
    }
}

/// `n` further LEB128 type indices.
pub open spec fn sp_u32s(bytes: Seq<u8>, pos: int, n: nat, acc: Seq<u32>) -> Result<
    (Seq<u32>, int),
    BinaryError,
>
    decreases n,
{
    if n == 0 {
        Ok((acc, pos))
    } else {
        match sp_u32(bytes, pos) {
            Ok((v, p2)) => sp_u32s(bytes, p2, (n - 1) as nat, acc.push(v)),
            Err(e) => Err(e),
        }
    }
}

/// The function section: a length-prefixed vector of type indices.
pub open spec fn sp_function_section(bytes: Seq<u8>, pos: int) -> Result<
    (Seq<u32>, int),
    BinaryError,
> {
    match sp_u32(bytes, pos) {
        Ok((n, p2)) => sp_u32s(bytes, p2, n as nat, Seq::empty()),
        Err(e) => Err(e),
    }
}

/// Limits: a flags byte, the minimum, and under flag 1 the maximum.
pub open spec fn sp_limits(bytes: Seq<u8>, pos: int) -> Result<(Limits, int), BinaryError> {
    if pos >= bytes.len() {
        Err(BinaryError::UnexpectedEOF)
    } else {
        let flags = bytes[pos];
        if flags == 0x00 {
            match sp_u32(bytes, pos + 1) {
                Ok((min, p2)) => Ok((Limits { min, max: None }, p2)),
                Err(e) => Err(e),
            }
        } else if flags == 0x01 {
            match sp_u32(bytes, pos + 1) {
                Ok((min, p2)) => match sp_u32(bytes, p2) {
                    Ok((mx, p3)) => Ok((Limits { min, max: Some(mx) }, p3)),
                    Err(e) => Err(e),
                },
                Err(e) => Err(e),
            }
        } else {
            Err(BinaryError::TypeMismatch)
        }
    }
}

/// A table type: the element reference type, then limits.
pub open spec fn sp_tabletype(bytes: Seq<u8>, pos: int) -> Result<(TableType, int), BinaryError> {
    if pos >= bytes.len() {
        Err(BinaryError::UnexpectedEOF)
    } else {
        match reftype_of(bytes[pos]) {
            Some(rt) => match sp_limits(bytes, pos + 1) {
                Ok((limits, p2)) => Ok((TableType { limits, elem_type: rt }, p2)),
                Err(e) => Err(e),
            },
            None => Err(BinaryError::TypeMismatch),
        }
    }
}

/// A memory type: limits only.
pub open spec fn sp_memtype(bytes: Seq<u8>, pos: int) -> Result<(MemType, int), BinaryError> {
    match sp_limits(bytes, pos) {
        Ok((limits, p2)) => Ok((MemType { limits }, p2)),
        Err(e) => Err(e),
    }
}

/// One locals group: a count and a value type, standing for `count`
/// repetitions of that type.
pub open spec fn sp_locals_group(bytes: Seq<u8>, pos: int) -> Result<
    (Seq<ValType>, int),
    BinaryError,
> {
    match sp_u32(bytes, pos) {
        Ok((count, p2)) => match sp_valtype(bytes, p2) {
            Ok((vt, p3)) => Ok((Seq::new(count as nat, |i: int| vt), p3)),
            Err(e) => Err(e),
        },
        Err(e) => Err(e),
    }
}

/// `n` further locals groups, flattened onto `acc`.
pub open spec fn sp_locals_groups(bytes: Seq<u8>, pos: int, n: nat, acc: Seq<ValType>) -> Result<
    (Seq<ValType>, int),
    BinaryError,
>
    decreases n,
{
    if n == 0 {
        Ok((acc, pos))
    } else {
        match sp_locals_group(bytes, pos) {
            Ok((vs, p2)) => sp_locals_groups(bytes, p2, (n - 1) as nat, acc + vs),
            Err(e) => Err(e),
        }
    }
}

/// The locals declaration of a code entry: a length-prefixed vector of
/// groups, flattened into one list.
pub open spec fn sp_locals_vec(bytes: Seq<u8>, pos: int) -> Result<(Seq<ValType>, int), BinaryError> {
    match sp_u32(bytes, pos) {
        Ok((n, p2)) => sp_locals_groups(bytes, p2, n as nat, Seq::empty()),
        Err(e) => Err(e),
    }
}

/// The engine-side leaf type a value-type byte denotes.
pub open spec fn valtype_tyv(v: ValType) -> TyV {
    match v {
        ValType::I32 => TyV::I32,
        ValType::I64 => TyV::I64,
        ValType::F32 => TyV::F32,
        ValType::F64 => TyV::F64,
        ValType::V128 => TyV::V128,
        ValType::FuncRef => TyV::FuncRef,
        ValType::ExternRef => TyV::ExternRef,
    }
}

/// A block type: `0x40` for no result, a value-type byte for one result,
/// and otherwise a signed LEB128 type index (negative indices are
/// rejected).
pub open spec fn sp_blocktype(bytes: Seq<u8>, pos: int) -> Result<(BlockTypeV, int), BinaryError> {
    if pos >= bytes.len() {
        Err(BinaryError::UnexpectedEOF)
    } else if bytes[pos] == 0x40 {
        Ok((BlockTypeV::Empty, pos + 1))
    } else {
        match valtype_of(bytes[pos]) {
            Some(v) => Ok((BlockTypeV::ValTy(valtype_tyv(v)), pos + 1)),
            None => match sp_i32(bytes, pos) {
                Ok((v, p2)) => if v >= 0 {
                    Ok((BlockTypeV::Index(v as usize), p2))
                } else {
                    Err(BinaryError::TypeMismatch)
                },
                Err(e) => Err(e),
            },
        }
    }
}

/// One instruction, including the nested bodies of `block`, `loop` and
/// `if`.
pub open spec fn sp_instr(bytes: Seq<u8>, pos: int) -> Result<(InstrV, int), BinaryError>
    decreases bytes.len() - pos, 0int,
{
    if pos >= bytes.len() {
        Err(BinaryError::UnexpectedEOF)
    } else {
        let b = bytes[pos];
        if b == 0x00 {
            Ok((InstrV::Unreachable, pos + 1))
        } else if b == 0x01 {
            Ok((InstrV::Nop, pos + 1))
        } else if b == 0x1a {
            Ok((InstrV::Drop, pos + 1))
        } else if b == 0x0c {
            match sp_u32(bytes, pos + 1) {
                Ok((v, p2)) => Ok((InstrV::Br(v as usize), p2)),
                Err(e) => Err(e),
            }
        } else if b == 0x20 {
            match sp_u32(bytes, pos + 1) {
                Ok((v, p2)) => Ok((InstrV::LocalGet(v as usize), p2)),
                Err(e) => Err(e),
            }
        } else if b == 0x21 {
            match sp_u32(bytes, pos + 1) {
                Ok((v, p2)) => Ok((InstrV::LocalSet(v as usize), p2)),
                Err(e) => Err(e),
            }
        } else if b == 0x22 {
            match sp_u32(bytes, pos + 1) {
                Ok((v, p2)) => Ok((InstrV::LocalTee(v as usize), p2)),
                Err(e) => Err(e),
            }
        } else if b == 0x41 {
            match sp_i32(bytes, pos + 1) {
                Ok((v, p2)) => Ok((InstrV::I32Const(v), p2)),
                Err(e) => Err(e),
            }
        } else if b == 0x46 {
            Ok((InstrV::I32Eq, pos + 1))
        } else if b == 0x6a {
            Ok((InstrV::I32Add, pos + 1))
        } else if b == 0x6b {
            Ok((InstrV::I32Sub, pos + 1))
        } else if b == 0x6c {
            Ok((InstrV::I32Mul, pos + 1))
        } else if b == 0x02 {
            match sp_blocktype(bytes, pos + 1) {
                Ok((bt, p2)) => if pos < p2 <= bytes.len() {
                    match sp_instrs(bytes, p2, Seq::empty()) {
                        Ok((body, p3, with_else)) => if with_else {
                            Err(BinaryError::InvalidInstruction)
                        } else {
                            Ok((InstrV::Block(bt, body), p3))
                        },
                        Err(e) => Err(e),
                    }
                } else {
                    Err(BinaryError::InvalidInstruction)
                },
                Err(e) => Err(e),
            }
        } else if b == 0x03 {
            match sp_blocktype(bytes, pos + 1) {
                Ok((bt, p2)) => if pos < p2 <= bytes.len() {
                    match sp_instrs(bytes, p2, Seq::empty()) {
                        Ok((body, p3, with_else)) => if with_else {
                            Err(BinaryError::InvalidInstruction)
                        } else {
                            Ok((InstrV::Loop(bt, body), p3))
                        },
                        Err(e) => Err(e),
                    }
                } else {
                    Err(BinaryError::InvalidInstruction)
                },
                Err(e) => Err(e),
            }
        } else if b == 0x04 {
            match sp_blocktype(bytes, pos + 1) {
                Ok((bt, p2)) => if pos < p2 <= bytes.len() {
                    match sp_instrs(bytes, p2, Seq::empty()) {
                        Ok((then_body, p3, with_else)) => if with_else {
                            if p2 < p3 <= bytes.len() {
                                match sp_instrs(bytes, p3, Seq::empty()) {
                                    Ok((else_body, p4, with_else2)) => if with_else2 {
                                        Err(BinaryError::InvalidInstruction)
                                    } else {
                                        Ok((InstrV::If(bt, then_body, else_body), p4))
                                    },
                                    Err(e) => Err(e),
                                }
                            } else {
                                Err(BinaryError::InvalidInstruction)
                            }
                        } else {
                            Ok((InstrV::If(bt, then_body, Seq::empty()), p3))
                        },
                        Err(e) => Err(e),
                    }
                } else {
                    Err(BinaryError::InvalidInstruction)
                },
                Err(e) => Err(e),
            }
        } else {
            Err(BinaryError::InvalidInstruction)
        }
    }
}

/// A sequence of instructions up to a terminator byte: `0x0B` (`end`)
/// closes the sequence, `0x05` (`else`) closes the then-arm of an `if`.
/// The boolean says whether the terminator was `else`.
pub open spec fn sp_instrs(bytes: Seq<u8>, pos: int, acc: Seq<InstrV>) -> Result<
    (Seq<InstrV>, int, bool),
    BinaryError,
>
    decreases bytes.len() - pos, 1int,
{
    if pos >= bytes.len() {
        Err(BinaryError::UnexpectedEOF)
    } else if bytes[pos] == 0x0b {
        Ok((acc, pos + 1, false))
    } else if bytes[pos] == 0x05 {
        Ok((acc, pos + 1, true))
    } else {
        match sp_instr(bytes, pos) {
            Ok((i, p2)) => if pos < p2 <= bytes.len() {
                sp_instrs(bytes, p2, acc.push(i))
            } else {
                Err(BinaryError::InvalidInstruction)
            },
            Err(e) => Err(e),
        }
    }
}

/// An expression: an instruction sequence closed by `end`.
pub open spec fn sp_expr(bytes: Seq<u8>, pos: int) -> Result<(Seq<InstrV>, int), BinaryError> {
    match sp_instrs(bytes, pos, Seq::empty()) {
        Ok((body, p2, with_else)) => if with_else {
            Err(BinaryError::InvalidInstruction)
        } else {
            Ok((body, p2))
        },
        Err(e) => Err(e),
    }
}

/// A code entry: a size, then exactly `size` bytes holding the locals
/// vector and the body expression; consuming anything else is an error.
pub open spec fn sp_code(bytes: Seq<u8>, pos: int) -> Result<
    ((Seq<ValType>, Seq<InstrV>), int),
    BinaryError,
> {
    match sp_u32(bytes, pos) {
        Ok((size, p)) => if p + size > bytes.len() {
            Err(BinaryError::UnexpectedEOF)
        } else {
            let payload = bytes.subrange(p, p + size);
            match sp_locals_vec(payload, 0) {
                Ok((locals, q)) => match sp_expr(payload, q) {
                    Ok((body, q2)) => if q2 == size {
                        Ok(((locals, body), p + size))
                    } else {
                        Err(BinaryError::InvalidSectionSize)
                    },
                    Err(e) => Err(e),
                },
                Err(e) => Err(e),
            }
        },
        Err(e) => Err(e),
    }
}

/// `n` further code entries.
pub open spec fn sp_codes(
    bytes: Seq<u8>,
    pos: int,
    n: nat,
    acc: Seq<(Seq<ValType>, Seq<InstrV>)>,
) -> Result<(Seq<(Seq<ValType>, Seq<InstrV>)>, int), BinaryError>
    decreases n,
{
    if n == 0 {
        Ok((acc, pos))
    } else {
        match sp_code(bytes, pos) {
            Ok((c, p2)) => sp_codes(bytes, p2, (n - 1) as nat, acc.push(c)),
            Err(e) => Err(e),
        }
    }
}

/// The code section: a length-prefixed vector of code entries.
pub open spec fn sp_code_section(bytes: Seq<u8>, pos: int) -> Result<
    (Seq<(Seq<ValType>, Seq<InstrV>)>, int),
    BinaryError,
> {
    match sp_u32(bytes, pos) {
        Ok((n, p2)) => sp_codes(bytes, p2, n as nat, Seq::empty()),
        Err(e) => Err(e),
    }
}

/// Parse one value type.
pub fn parse_valtype(input: &[u8], pos: usize) -> (r: Result<(ValType, usize), DecodeError>)
    requires
        pos <= input@.len(),
    ensures
        (r matches Ok((v, p2)) ==> sp_valtype(input@, pos as int) == Ok::<
            (ValType, int),
            BinaryError,
        >((v, p2 as int)) && pos < p2 <= input@.len()),
        (r matches Err(e) ==> sp_valtype(input@, pos as int) == Err::<(ValType, int), BinaryError>(
            e.kind,
        ) && e.location.offset <= input@.len()),
{
    if pos >= input.len() {
        return Err(DecodeError::new(BinaryError::UnexpectedEOF, pos, 0));
    }
    let b = input[pos];
    let v = if b == 0x7f {
        ValType::I32
    } else if b == 0x7e {
        ValType::I64
    } else if b == 0x7d {
        ValType::F32
    } else if b == 0x7c {
        ValType::F64
    } else if b == 0x7b {
        ValType::V128
    } else if b == 0x70 {
        ValType::FuncRef
    } else if b == 0x6f {
        ValType::ExternRef
    } else {
        return Err(DecodeError::new(BinaryError::TypeMismatch, pos, 1));
    };
    Ok((v, pos + 1))
}

/// Parse one reference type.
pub fn parse_reftype(input: &[u8], pos: usize) -> (r: Result<(RefType, usize), DecodeError>)
    requires
        pos <= input@.len(),
    ensures
        (r matches Ok((v, p2)) ==> pos < input@.len() && reftype_of(input@[pos as int]) == Some(v)
            && p2 == pos + 1),
        (r matches Err(e) ==> e.location.offset <= input@.len() && (pos < input@.len()
            ==> reftype_of(input@[pos as int]) is None)),
{
    if pos >= input.len() {
        return Err(DecodeError::new(BinaryError::UnexpectedEOF, pos, 0));
    }
    let b = input[pos];
    if b == 0x70 {
        Ok((RefType::FuncRef, pos + 1))
    } else if b == 0x6f {
        Ok((RefType::ExternRef, pos + 1))
    } else {
        Err(DecodeError::new(BinaryError::TypeMismatch, pos, 1))
    }
}

/// Parse an unsigned LEB128 integer at `pos`.
fn parse_u32_at(input: &[u8], pos: usize) -> (r: Result<(u32, usize), DecodeError>)
    requires
        pos <= input@.len(),
    ensures
        (r matches Ok((v, p2)) ==> sp_u32(input@, pos as int) == Ok::<(u32, int), BinaryError>(
            (v, p2 as int),
        ) && pos < p2 <= input@.len()),
        (r matches Err(e) ==> sp_u32(input@, pos as int) == Err::<(u32, int), BinaryError>(e.kind)
            && e.location.offset <= input@.len()),
{
    let rest = &input[pos..input.len()];
    proof {
        assert(rest@ =~= input@.skip(pos as int));
    }
    match decode_u32(rest) {
        Ok((v, n)) => Ok((v, pos + n)),
        Err(k) => Err(DecodeError::new(k, pos, 0)),
    }
}

/// Parse a signed LEB128 integer at `pos`.
fn parse_i32_at(input: &[u8], pos: usize) -> (r: Result<(i32, usize), DecodeError>)
    requires
        pos <= input@.len(),
    ensures
        (r matches Ok((v, p2)) ==> sp_i32(input@, pos as int) == Ok::<(i32, int), BinaryError>(
            (v, p2 as int),
        ) && pos < p2 <= input@.len()),
        (r matches Err(e) ==> sp_i32(input@, pos as int) == Err::<(i32, int), BinaryError>(e.kind)
            && e.location.offset <= input@.len()),
{
    let rest = &input[pos..input.len()];
    proof {
        assert(rest@ =~= input@.skip(pos as int));
    }
    match decode_i32(rest) {
        Ok((v, n)) => Ok((v, pos + n)),
        Err(k) => Err(DecodeError::new(k, pos, 0)),
    }
}

/// Parse a length-prefixed vector of value types.
fn parse_valtype_vec(input: &[u8], pos: usize) -> (r: Result<(Vec<ValType>, usize), DecodeError>)
    requires
        pos <= input@.len(),
    ensures
        (r matches Ok((v, p2)) ==> sp_valtype_vec(input@, pos as int) == Ok::<
            (Seq<ValType>, int),
            BinaryError,
        >((v@, p2 as int)) && pos <= p2 <= input@.len()),
        (r matches Err(e) ==> sp_valtype_vec(input@, pos as int) == Err::<
            (Seq<ValType>, int),
            BinaryError,
        >(e.kind) && e.location.offset <= input@.len()),
{
    let (n, start) = match parse_u32_at(input, pos) {
        Ok(v) => v,
        Err(e) => {
            return Err(e);
        },
    };
    let mut out: Vec<ValType> = Vec::new();
    let mut i: u32 = 0;
    let mut p: usize = start;
    #[verifier::loop_isolation(false)]
    while i < n
        invariant
            i <= n,
            pos <= p <= input@.len(),
            sp_valtype_vec(input@, pos as int) == sp_valtypes(
                input@,
                p as int,
                (n - i) as nat,
                out@,
            ),
        decreases n - i,
    {
        match parse_valtype(input, p) {
            Ok((v, p2)) => {
                out.push(v);
                p = p2;
            },
            Err(e) => {
                return Err(e);
            },
        }
        i = i + 1;
    }
    Ok((out, p))
}

/// Parse a function type.
pub fn parse_functype(input: &[u8], pos: usize) -> (r: Result<(FuncType, usize), DecodeError>)
    requires
        pos <= input@.len(),
    ensures
        (r matches Ok((ft, p2)) ==> sp_functype(input@, pos as int) == Ok::<
            ((Seq<ValType>, Seq<ValType>), int),
            BinaryError,
        >(((ft.params@, ft.results@), p2 as int)) && pos < p2 <= input@.len()),
        (r matches Err(e) ==> sp_functype(input@, pos as int) == Err::<
            ((Seq<ValType>, Seq<ValType>), int),
            BinaryError,
        >(e.kind) && e.location.offset <= input@.len()),
{
    if pos >= input.len() {
        return Err(DecodeError::new(BinaryError::UnexpectedEOF, pos, 0));
    }
    if input[pos] != 0x60 {
        return Err(DecodeError::new(BinaryError::TypeMismatch, pos, 1));
    }
    let (params, p2) = match parse_valtype_vec(input, pos + 1) {
        Ok(v) => v,
        Err(e) => {
            return Err(e);
        },
    };
    let (results, p3) = match parse_valtype_vec(input, p2) {
        Ok(v) => v,
        Err(e) => {
            return Err(e);
        },
    };
    Ok((FuncType { params, results }, p3))
}

/// How a vector of decoded function types is seen by the specification
/// parser.
pub open spec fn func_types_view(s: Seq<FuncType>) -> Seq<(Seq<ValType>, Seq<ValType>)> {
    Seq::new(s.len(), |i: int| (s[i].params@, s[i].results@))
}

/// Parse the type section: a length-prefixed vector of function types.
pub fn parse_type_section(input: &[u8], pos: usize) -> (r: Result<
    (Vec<FuncType>, usize),
    DecodeError,
>)
    requires
        pos <= input@.len(),
    ensures
        (r matches Ok((fts, p2)) ==> sp_type_section(input@, pos as int) == Ok::<
            (Seq<(Seq<ValType>, Seq<ValType>)>, int),
            BinaryError,
        >((func_types_view(fts@), p2 as int)) && pos <= p2 <= input@.len()),
        (r matches Err(e) ==> sp_type_section(input@, pos as int) == Err::<
            (Seq<(Seq<ValType>, Seq<ValType>)>, int),
            BinaryError,
        >(e.kind) && e.location.offset <= input@.len()),
{
    let (n, start) = match parse_u32_at(input, pos) {
        Ok(v) => v,
        Err(e) => {
            return Err(e);
        },
    };
    let mut out: Vec<FuncType> = Vec::new();
    let mut i: u32 = 0;
    let mut p: usize = start;
    proof {
        assert(func_types_view(out@) =~= Seq::<(Seq<ValType>, Seq<ValType>)>::empty());
    }
    #[verifier::loop_isolation(false)]
    while i < n
        invariant
            i <= n,
            pos <= p <= input@.len(),
            sp_type_section(input@, pos as int) == sp_functypes(
                input@,
                p as int,
                (n - i) as nat,
                func_types_view(out@),
            ),
        decreases n - i,
    {
        match parse_functype(input, p) {
            Ok((ft, p2)) => {
                let ghost pre = func_types_view(out@);
                let ghost ftv = (ft.params@, ft.results@);
                out.push(ft);
                proof {
                    assert(func_types_view(out@) =~= pre.push(ftv));
                }
                p = p2;
            },
            Err(e) => {
                return Err(e);
            },
        }
        i = i + 1;
    }
    Ok((out, p))
}

/// Parse the function section: a length-prefixed vector of type indices.
pub fn parse_function_section(input: &[u8], pos: usize) -> (r: Result<
    (Vec<u32>, usize),
    DecodeError,
>)
    requires
        pos <= input@.len(),
    ensures
        (r matches Ok((v, p2)) ==> sp_function_section(input@, pos as int) == Ok::<
            (Seq<u32>, int),
            BinaryError,
        >((v@, p2 as int)) && pos <= p2 <= input@.len()),
        (r matches Err(e) ==> sp_function_section(input@, pos as int) == Err::<
            (Seq<u32>, int),
            BinaryError,
        >(e.kind) && e.location.offset <= input@.len()),
{
    let (n, start) = match parse_u32_at(input, pos) {
        Ok(v) => v,
        Err(e) => {
            return Err(e);
        },
    };
    let mut out: Vec<u32> = Vec::new();
    let mut i: u32 = 0;
    let mut p: usize = start;
    #[verifier::loop_isolation(false)]
    while i < n
        invariant
            i <= n,
            pos <= p <= input@.len(),
            sp_function_section(input@, pos as int) == sp_u32s(
                input@,
                p as int,
                (n - i) as nat,
                out@,
            ),
        decreases n - i,
    {
        match parse_u32_at(input, p) {
            Ok((v, p2)) => {
                out.push(v);
                p = p2;
            },
            Err(e) => {
                return Err(e);
            },
        }
        i = i + 1;
    }
    Ok((out, p))
}

/// Parse limits.
pub fn parse_limits(input: &[u8], pos: usize) -> (r: Result<(Limits, usize), DecodeError>)
    requires
        pos <= input@.len(),
    ensures
        (r matches Ok((v, p2)) ==> sp_limits(input@, pos as int) == Ok::<(Limits, int), BinaryError>(
            (v, p2 as int),
        ) && pos < p2 <= input@.len()),
        (r matches Err(e) ==> sp_limits(input@, pos as int) == Err::<(Limits, int), BinaryError>(
            e.kind,
        ) && e.location.offset <= input@.len()),
{
    if pos >= input.len() {
        return Err(DecodeError::new(BinaryError::UnexpectedEOF, pos, 0));
    }
    let flags = input[pos];
    if flags == 0x00 {
        let (min, p2) = match parse_u32_at(input, pos + 1) {
            Ok(v) => v,
            Err(e) => {
                return Err(e);
            },
        };
        Ok((Limits { min, max: None }, p2))
    } else if flags == 0x01 {
        let (min, p2) = match parse_u32_at(input, pos + 1) {
            Ok(v) => v,
            Err(e) => {
                return Err(e);
            },
        };
        let (mx, p3) = match parse_u32_at(input, p2) {
            Ok(v) => v,
            Err(e) => {
                return Err(e);
            },
        };
        Ok((Limits { min, max: Some(mx) }, p3))
    } else {
        Err(DecodeError::new(BinaryError::TypeMismatch, pos, 1))
    }
}

/// Parse a table type.
pub fn parse_tabletype(input: &[u8], pos: usize) -> (r: Result<(TableType, usize), DecodeError>)
    requires
        pos <= input@.len(),
    ensures
        (r matches Ok((v, p2)) ==> sp_tabletype(input@, pos as int) == Ok::<
            (TableType, int),
            BinaryError,
        >((v, p2 as int)) && pos < p2 <= input@.len()),
        (r matches Err(e) ==> sp_tabletype(input@, pos as int) == Err::<
            (TableType, int),
            BinaryError,
        >(e.kind) && e.location.offset <= input@.len()),
{
    if pos >= input.len() {
        return Err(DecodeError::new(BinaryError::UnexpectedEOF, pos, 0));
    }
    let (elem_type, p1) = match parse_reftype(input, pos) {
        Ok(v) => v,
        Err(e) => {
            return Err(DecodeError::new(BinaryError::TypeMismatch, pos, 1));
        },
    };
    let (limits, p2) = match parse_limits(input, p1) {
        Ok(v) => v,
        Err(e) => {
            return Err(e);
        },
    };
    Ok((TableType { limits, elem_type }, p2))
}

/// Parse a memory type.
pub fn parse_memtype(input: &[u8], pos: usize) -> (r: Result<(MemType, usize), DecodeError>)
    requires
        pos <= input@.len(),
    ensures
        (r matches Ok((v, p2)) ==> sp_memtype(input@, pos as int) == Ok::<
            (MemType, int),
            BinaryError,
        >((v, p2 as int)) && pos < p2 <= input@.len()),
        (r matches Err(e) ==> sp_memtype(input@, pos as int) == Err::<(MemType, int), BinaryError>(
            e.kind,
        ) && e.location.offset <= input@.len()),
{
    match parse_limits(input, pos) {
        Ok((limits, p2)) => Ok((MemType { limits }, p2)),
        Err(e) => Err(e),
    }
}

/// Parse one locals group: a count and a value type, expanded into
/// `count` repetitions.
pub fn parse_locals(input: &[u8], pos: usize) -> (r: Result<(Vec<ValType>, usize), DecodeError>)
    requires
        pos <= input@.len(),
    ensures
        (r matches Ok((v, p2)) ==> sp_locals_group(input@, pos as int) == Ok::<
            (Seq<ValType>, int),
            BinaryError,
        >((v@, p2 as int)) && pos < p2 <= input@.len()),
        (r matches Err(e) ==> sp_locals_group(input@, pos as int) == Err::<
            (Seq<ValType>, int),
            BinaryError,
        >(e.kind) && e.location.offset <= input@.len()),
{
    let (count, p2) = match parse_u32_at(input, pos) {
        Ok(v) => v,
        Err(e) => {
            return Err(e);
        },
    };
    let (vt, p3) = match parse_valtype(input, p2) {
        Ok(v) => v,
        Err(e) => {
            return Err(e);
        },
    };
    let locals: Vec<ValType> = vec_repeat(vt, count as usize);
    proof {
        assert(locals@ =~= Seq::new(count as nat, |i: int| vt));
    }
    Ok((locals, p3))
}

/// `n` copies of one value type.
fn vec_repeat(vt: ValType, n: usize) -> (r: Vec<ValType>)
    ensures
        r@.len() == n,
        forall|i: int| 0 <= i < n ==> r@[i] == vt,
{
    let mut r: Vec<ValType> = Vec::new();
    let mut i: usize = 0;
    while i < n
        invariant
            i <= n,
            r@.len() == i,
            forall|m: int| 0 <= m < i ==> r@[m] == vt,
        decreases n - i,
    {
        r.push(vt);
        i = i + 1;
    }
    r
}


/// Parse a block type.
fn parse_blocktype(input: &[u8], pos: usize) -> (r: Result<(BlockType, usize), DecodeError>)
    requires
        pos <= input@.len(),
    ensures
        (r matches Ok((bt, p2)) ==> sp_blocktype(input@, pos as int) == Ok::<
            (BlockTypeV, int),
            BinaryError,
        >((crate::types::block_type_view(bt), p2 as int)) && pos < p2 <= input@.len()),
        (r matches Err(e) ==> sp_blocktype(input@, pos as int) == Err::<
            (BlockTypeV, int),
            BinaryError,
        >(e.kind) && e.location.offset <= input@.len()),
{
    if pos >= input.len() {
        return Err(DecodeError::new(BinaryError::UnexpectedEOF, pos, 0));
    }
    let b = input[pos];
    if b == 0x40 {
        return Ok((BlockType::Empty, pos + 1));
    }
    let vt: Option<Ty> = if b == 0x7f {
        Some(Ty::I32)
    } else if b == 0x7e {
        Some(Ty::I64)
    } else if b == 0x7d {
        Some(Ty::F32)
    } else if b == 0x7c {
        Some(Ty::F64)
    } else if b == 0x7b {
        Some(Ty::V128)
    } else if b == 0x70 {
        Some(Ty::FuncRef)
    } else if b == 0x6f {
        Some(Ty::ExternRef)
    } else {
        None
    };
    match vt {
        Some(t) => Ok((BlockType::ValTy(t), pos + 1)),
        None => {
            match parse_i32_at(input, pos) {
                Ok((v, p2)) => {
                    if v >= 0 {
                        Ok((BlockType::Index(v as usize), p2))
                    } else {
                        Err(DecodeError::new(BinaryError::TypeMismatch, pos, 1))
                    }
                },
                Err(e) => Err(e),
            }
        },
    }
}

/// Parse one instruction, including the nested bodies of `block`, `loop`
/// and `if`.
#[verifier::rlimit(100)]
fn parse_one_instr(input: &[u8], pos: usize) -> (r: Result<(Instr, usize), DecodeError>)
    requires
        pos <= input@.len(),
    ensures
        (r matches Ok((i, p2)) ==> sp_instr(input@, pos as int) == Ok::<(InstrV, int), BinaryError>(
            (instr_view(i), p2 as int),
        ) && pos < p2 <= input@.len()),
        (r matches Err(e) ==> sp_instr(input@, pos as int) == Err::<(InstrV, int), BinaryError>(
            e.kind,
        ) && e.location.offset <= input@.len()),
    decreases input@.len() - pos, 1int,
{
    if pos >= input.len() {
        return Err(DecodeError::new(BinaryError::UnexpectedEOF, pos, 0));
    }
    let b = input[pos];
    if b == 0x00 {
        Ok((Instr::Unreachable, pos + 1))
    } else if b == 0x01 {
        Ok((Instr::Nop, pos + 1))
    } else if b == 0x1a {
        Ok((Instr::Drop, pos + 1))
    } else if b == 0x0c {
        match parse_u32_at(input, pos + 1) {
            Ok((v, p2)) => Ok((Instr::Br(v as usize), p2)),
            Err(e) => Err(e),
        }
    } else if b == 0x20 {
        match parse_u32_at(input, pos + 1) {
            Ok((v, p2)) => Ok((Instr::LocalGet(v as usize), p2)),
            Err(e) => Err(e),
        }
    } else if b == 0x21 {
        match parse_u32_at(input, pos + 1) {
            Ok((v, p2)) => Ok((Instr::LocalSet(v as usize), p2)),
            Err(e) => Err(e),
        }
    } else if b == 0x22 {
        match parse_u32_at(input, pos + 1) {
            Ok((v, p2)) => Ok((Instr::LocalTee(v as usize), p2)),
            Err(e) => Err(e),
        }
    } else if b == 0x41 {
        match parse_i32_at(input, pos + 1) {
            Ok((v, p2)) => Ok((Instr::I32Const(v), p2)),
            Err(e) => Err(e),
        }
    } else if b == 0x46 {
        Ok((Instr::I32Eq, pos + 1))
    } else if b == 0x6a {
        Ok((Instr::I32Add, pos + 1))
    } else if b == 0x6b {
        Ok((Instr::I32Sub, pos + 1))
    } else if b == 0x6c {
        Ok((Instr::I32Mul, pos + 1))
    } else if b == 0x02 || b == 0x03 {
        parse_block_or_loop(input, pos)
    } else if b == 0x04 {
        parse_if_instr(input, pos)
    } else {
        Err(DecodeError::new(BinaryError::InvalidInstruction, pos, 1))
    }
}

/// Parse a `block` or `loop` instruction with its nested body.
#[verifier::rlimit(100)]
fn parse_block_or_loop(input: &[u8], pos: usize) -> (r: Result<(Instr, usize), DecodeError>)
    requires
        pos < input@.len(),
        input@[pos as int] == 0x02 || input@[pos as int] == 0x03,
    ensures
        (r matches Ok((i, p2)) ==> sp_instr(input@, pos as int) == Ok::<(InstrV, int), BinaryError>(
            (instr_view(i), p2 as int),
        ) && pos < p2 <= input@.len()),
        (r matches Err(e) ==> sp_instr(input@, pos as int) == Err::<(InstrV, int), BinaryError>(
            e.kind,
        ) && e.location.offset <= input@.len()),
    decreases input@.len() - pos, 0int,
{
    let _input_len = input.len();
    let b = input[pos];
    let (bt, p2) = match parse_blocktype(input, pos + 1) {
        Ok(v) => v,
        Err(e) => {
            return Err(e);
        },
    };
    let (body, p3, with_else) = match parse_instr_seq(input, p2) {
        Ok(v) => v,
        Err(e) => {
            return Err(e);
        },
    };
    if with_else {
        return Err(DecodeError::new(BinaryError::InvalidInstruction, p3 - 1, 1));
    }
    if b == 0x02 {
        Ok((Instr::Block(bt, body), p3))
    } else {
        Ok((Instr::Loop(bt, body), p3))
    }
}

/// Parse an `if` instruction with its then-arm and optional else-arm.
#[verifier::rlimit(100)]
fn parse_if_instr(input: &[u8], pos: usize) -> (r: Result<(Instr, usize), DecodeError>)
    requires
        pos < input@.len(),
        input@[pos as int] == 0x04,
    ensures
        (r matches Ok((i, p2)) ==> sp_instr(input@, pos as int) == Ok::<(InstrV, int), BinaryError>(
            (instr_view(i), p2 as int),
        ) && pos < p2 <= input@.len()),
        (r matches Err(e) ==> sp_instr(input@, pos as int) == Err::<(InstrV, int), BinaryError>(
            e.kind,
        ) && e.location.offset <= input@.len()),
    decreases input@.len() - pos, 0int,
{
    let _input_len = input.len();
    let (bt, p2) = match parse_blocktype(input, pos + 1) {
        Ok(v) => v,
        Err(e) => {
            return Err(e);
        },
    };
    let (then_body, p3, with_else) = match parse_instr_seq(input, p2) {
        Ok(v) => v,
        Err(e) => {
            return Err(e);
        },
    };
    if with_else {
        let (else_body, p4, with_else2) = match parse_instr_seq(input, p3) {
            Ok(v) => v,
            Err(e) => {
                return Err(e);
            },
        };
        if with_else2 {
            return Err(DecodeError::new(BinaryError::InvalidInstruction, p4 - 1, 1));
        }
        Ok((Instr::If(bt, then_body, else_body), p4))
    } else {
        let else_body: Vec<Instr> = Vec::new();
        proof {
            assert(instrs_view(else_body@) =~= Seq::<InstrV>::empty());
        }
        Ok((Instr::If(bt, then_body, else_body), p3))
    }
}

/// Parse instructions up to a terminator, appending them to `out` and
/// reporting the position after the terminator and whether it was
/// `else`.
fn parse_instr_seq_into(input: &[u8], pos: usize, out: &mut Vec<Instr>) -> (r: Result<
    (usize, bool),
    DecodeError,
>)
    requires
        pos <= input@.len(),
    ensures
        (r matches Ok(pf) ==> sp_instrs(input@, pos as int, instrs_view(old(out)@)) == Ok::<
            (Seq<InstrV>, int, bool),
            BinaryError,
        >((instrs_view(final(out)@), pf.0 as int, pf.1)) && pos < pf.0 <= input@.len()),
        (r matches Err(e) ==> sp_instrs(input@, pos as int, instrs_view(old(out)@)) == Err::<
            (Seq<InstrV>, int, bool),
            BinaryError,
        >(e.kind) && e.location.offset <= input@.len()),
    decreases input@.len() - pos, 2int,
{
    if pos >= input.len() {
        return Err(DecodeError::new(BinaryError::UnexpectedEOF, pos, 0));
    }
    let b = input[pos];
    if b == 0x0b {
        return Ok((pos + 1, false));
    }
    if b == 0x05 {
        return Ok((pos + 1, true));
    }
    match parse_one_instr(input, pos) {
        Ok((i, p2)) => {
            let ghost pre = instrs_view(out@);
            let ghost iv = instr_view(i);
            out.push(i);
            proof {
                assert(instrs_view(out@) =~= pre.push(iv));
            }
            parse_instr_seq_into(input, p2, out)
        },
        Err(e) => Err(e),
    }
}

/// Parse instructions up to a terminator, reporting whether it was
/// `else`.
fn parse_instr_seq(input: &[u8], pos: usize) -> (r: Result<(Vec<Instr>, usize, bool), DecodeError>)
    requires
        pos <= input@.len(),
    ensures
        (r matches Ok((v, p2, f)) ==> sp_instrs(input@, pos as int, Seq::empty()) == Ok::<
            (Seq<InstrV>, int, bool),
            BinaryError,
        >((instrs_view(v@), p2 as int, f)) && pos < p2 <= input@.len()),
        (r matches Err(e) ==> sp_instrs(input@, pos as int, Seq::empty()) == Err::<
            (Seq<InstrV>, int, bool),
            BinaryError,
        >(e.kind) && e.location.offset <= input@.len()),
    decreases input@.len() - pos, 3int,
{
    let mut out: Vec<Instr> = Vec::new();
    proof {
        assert(instrs_view(out@) =~= Seq::<InstrV>::empty());
    }
    match parse_instr_seq_into(input, pos, &mut out) {
        Ok((p2, f)) => Ok((out, p2, f)),
        Err(e) => Err(e),
    }
}

/// Parse an instruction sequence closed by `end` (an `else` terminator
/// here is an error).
pub fn parse_instructions(input: &[u8], pos: usize) -> (r: Result<(Vec<Instr>, usize), DecodeError>)
    requires
        pos <= input@.len(),
    ensures
        (r matches Ok((v, p2)) ==> sp_expr(input@, pos as int) == Ok::<
            (Seq<InstrV>, int),
            BinaryError,
        >((instrs_view(v@), p2 as int)) && pos < p2 <= input@.len()),
        (r matches Err(e) ==> sp_expr(input@, pos as int) == Err::<(Seq<InstrV>, int), BinaryError>(
            e.kind,
        ) && e.location.offset <= input@.len()),
{
    match parse_instr_seq(input, pos) {
        Ok((v, p2, with_else)) => {
            if with_else {
                Err(DecodeError::new(BinaryError::InvalidInstruction, p2 - 1, 1))
            } else {
                Ok((v, p2))
            }
        },
        Err(e) => Err(e),
    }
}

/// Parse an expression: instructions closed by `end`.
pub fn parse_expr(input: &[u8], pos: usize) -> (r: Result<(Expr, usize), DecodeError>)
    requires
        pos <= input@.len(),
    ensures
        (r matches Ok((e, p2)) ==> sp_expr(input@, pos as int) == Ok::<
            (Seq<InstrV>, int),
            BinaryError,
        >((instrs_view(e.instrs@), p2 as int)) && pos < p2 <= input@.len()),
        (r matches Err(e) ==> sp_expr(input@, pos as int) == Err::<(Seq<InstrV>, int), BinaryError>(
            e.kind,
        ) && e.location.offset <= input@.len()),
{
    match parse_instructions(input, pos) {
        Ok((instrs, p2)) => Ok((Expr { instrs }, p2)),
        Err(e) => Err(e),
    }
}

/// Parse a code entry's locals declaration: a length-prefixed vector of
/// groups, flattened.
fn parse_locals_vec(input: &[u8], pos: usize) -> (r: Result<(Vec<ValType>, usize), DecodeError>)
    requires
        pos <= input@.len(),
    ensures
        (r matches Ok((v, p2)) ==> sp_locals_vec(input@, pos as int) == Ok::<
            (Seq<ValType>, int),
            BinaryError,
        >((v@, p2 as int)) && pos <= p2 <= input@.len()),
        (r matches Err(e) ==> sp_locals_vec(input@, pos as int) == Err::<
            (Seq<ValType>, int),
            BinaryError,
        >(e.kind) && e.location.offset <= input@.len()),
{
    let (n, start) = match parse_u32_at(input, pos) {
        Ok(v) => v,
        Err(e) => {
            return Err(e);
        },
    };
    let mut out: Vec<ValType> = Vec::new();
    let mut i: u32 = 0;
    let mut p: usize = start;
    proof {
        assert(out@ =~= Seq::<ValType>::empty());
    }
    #[verifier::loop_isolation(false)]
    while i < n
        invariant
            i <= n,
            pos <= p <= input@.len(),
            sp_locals_vec(input@, pos as int) == sp_locals_groups(
                input@,
                p as int,
                (n - i) as nat,
                out@,
            ),
        decreases n - i,
    {
        match parse_locals(input, p) {
            Ok((mut group, p2)) => {
                out.append(&mut group);
                p = p2;
            },
            Err(e) => {
                return Err(e);
            },
        }
        i = i + 1;
    }
    Ok((out, p))
}

/// Move a decode error from payload-relative to absolute positions.
fn offset_error(e: DecodeError, base: usize, limit: usize) -> (r: DecodeError)
    requires
        e.location.offset <= limit,
        base + limit <= usize::MAX,
    ensures
        r.kind == e.kind,
        r.location.offset <= base + limit,
{
    DecodeError::new(e.kind, base + e.location.offset, e.location.length)
}

/// Parse a code entry: `size`, then exactly `size` bytes holding the
/// locals and the body.
pub fn parse_code(input: &[u8], pos: usize) -> (r: Result<(Code, usize), DecodeError>)
    requires
        pos <= input@.len(),
    ensures
        (r matches Ok((c, p2)) ==> sp_code(input@, pos as int) == Ok::<
            ((Seq<ValType>, Seq<InstrV>), int),
            BinaryError,
        >(((c.locals@, instrs_view(c.body.instrs@)), p2 as int)) && pos < p2 <= input@.len()),
        (r matches Err(e) ==> sp_code(input@, pos as int) == Err::<
            ((Seq<ValType>, Seq<InstrV>), int),
            BinaryError,
        >(e.kind) && e.location.offset <= input@.len()),
{
    let (size, p) = match parse_u32_at(input, pos) {
        Ok(v) => v,
        Err(e) => {
            return Err(e);
        },
    };
    if size as usize > input.len() - p {
        return Err(DecodeError::new(BinaryError::UnexpectedEOF, p, 0));
    }
    let end = p + size as usize;
    let payload = &input[p..end];
    proof {
        assert(payload@ =~= input@.subrange(p as int, p + size));
    }
    let (locals, q) = match parse_locals_vec(payload, 0) {
        Ok(v) => v,
        Err(e) => {
            return Err(offset_error(e, p, size as usize));
        },
    };
    let (body, q2) = match parse_expr(payload, q) {
        Ok(v) => v,
        Err(e) => {
            return Err(offset_error(e, p, size as usize));
        },
    };
    if q2 != size as usize {
        return Err(DecodeError::new(BinaryError::InvalidSectionSize, pos, 0));
    }
    Ok((Code { locals, body }, end))
}

/// How a vector of decoded code entries is seen by the specification
/// parser.
pub open spec fn codes_view(s: Seq<Code>) -> Seq<(Seq<ValType>, Seq<InstrV>)> {
    Seq::new(s.len(), |i: int| (s[i].locals@, instrs_view(s[i].body.instrs@)))
}

/// Parse the code section: a length-prefixed vector of code entries.
pub fn parse_code_section(input: &[u8], pos: usize) -> (r: Result<(Vec<Code>, usize), DecodeError>)
    requires
        pos <= input@.len(),
    ensures
        (r matches Ok((cs, p2)) ==> sp_code_section(input@, pos as int) == Ok::<
            (Seq<(Seq<ValType>, Seq<InstrV>)>, int),
            BinaryError,
        >((codes_view(cs@), p2 as int)) && pos <= p2 <= input@.len()),
        (r matches Err(e) ==> sp_code_section(input@, pos as int) == Err::<
            (Seq<(Seq<ValType>, Seq<InstrV>)>, int),
            BinaryError,
        >(e.kind) && e.location.offset <= input@.len()),
{
    let (n, start) = match parse_u32_at(input, pos) {
        Ok(v) => v,
        Err(e) => {
            return Err(e);
        },
    };
    let mut out: Vec<Code> = Vec::new();
    let mut i: u32 = 0;
    let mut p: usize = start;
    proof {
        assert(codes_view(out@) =~= Seq::<(Seq<ValType>, Seq<InstrV>)>::empty());
    }
    #[verifier::loop_isolation(false)]
    while i < n
        invariant
            i <= n,
            pos <= p <= input@.len(),
            sp_code_section(input@, pos as int) == sp_codes(
                input@,
                p as int,
                (n - i) as nat,
                codes_view(out@),
            ),
        decreases n - i,
    {
        match parse_code(input, p) {
            Ok((c, p2)) => {
                let ghost pre = codes_view(out@);
                let ghost cv = (c.locals@, instrs_view(c.body.instrs@));
                out.push(c);
                proof {
                    assert(codes_view(out@) =~= pre.push(cv));
                }
                p = p2;
            },
            Err(e) => {
                return Err(e);
            },
        }
        i = i + 1;
    }
    Ok((out, p))
}

/// The sections of a module after the preamble: recognised sections
/// (type, function, code) replace the matching field; any other id,
/// custom sections included, is skipped over.
pub open spec fn sp_sections(
    bytes: Seq<u8>,
    pos: int,
    types: Seq<(Seq<ValType>, Seq<ValType>)>,
    functions: Seq<u32>,
    code: Seq<(Seq<ValType>, Seq<InstrV>)>,
) -> Result<
    (Seq<(Seq<ValType>, Seq<ValType>)>, Seq<u32>, Seq<(Seq<ValType>, Seq<InstrV>)>),
    BinaryError,
>
    decreases bytes.len() - pos,
{
    if pos >= bytes.len() {
        Ok((types, functions, code))
    } else {
        let id = bytes[pos];
        match sp_u32(bytes, pos + 1) {
            Ok((size, p)) => {
                if p + size > bytes.len() {
                    Err(BinaryError::UnexpectedEOF)
                } else if !(pos < p + size) {
                    Err(BinaryError::InvalidSectionSize)
                } else {
                    let payload = bytes.subrange(p, p + size);
                    let next = p + size;
                    if id == 1 {
                        match sp_type_section(payload, 0) {
                            Ok((ts, q)) => if q == size {
                                sp_sections(bytes, next, ts, functions, code)
                            } else {
                                Err(BinaryError::InvalidSectionSize)
                            },
                            Err(e) => Err(e),
                        }
                    } else if id == 3 {
                        match sp_function_section(payload, 0) {
                            Ok((fs, q)) => if q == size {
                                sp_sections(bytes, next, types, fs, code)
                            } else {
                                Err(BinaryError::InvalidSectionSize)
                            },
                            Err(e) => Err(e),
                        }
                    } else if id == 10 {
                        match sp_code_section(payload, 0) {
                            Ok((cs, q)) => if q == size {
                                sp_sections(bytes, next, types, functions, cs)
                            } else {
                                Err(BinaryError::InvalidSectionSize)
                            },
                            Err(e) => Err(e),
                        }
                    } else {
                        sp_sections(bytes, next, types, functions, code)
                    }
                }
            },
            Err(e) => Err(e),
        }
    }
}

/// A whole module: magic, version, then the section sequence.
pub open spec fn sp_module(bytes: Seq<u8>) -> Result<
    (Seq<(Seq<ValType>, Seq<ValType>)>, Seq<u32>, Seq<(Seq<ValType>, Seq<InstrV>)>),
    BinaryError,
> {
    if bytes.len() < 4 {
        Err(BinaryError::UnexpectedEOF)
    } else if bytes.subrange(0, 4) != crate::primitives::magic_bytes() {
        Err(BinaryError::InvalidMagic)
    } else if bytes.len() < 8 {
        Err(BinaryError::UnexpectedEOF)
    } else if bytes.subrange(4, 8) != crate::primitives::version_bytes() {
        Err(BinaryError::InvalidVersion)
    } else {
        sp_sections(bytes, 8, Seq::empty(), Seq::empty(), Seq::empty())
    }
}

} // verus!
