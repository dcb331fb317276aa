//! The data model: value types, reference types, function types, limits,
//! table/memory/global types, block types, instructions and runtime
//! values, together with the mathematical views the contracts speak of.
//!
//! Two shapes of type co-exist, as the execution model calls for: the
//! decoder-side `ValType`/`FuncType` pair, and the engine-side `Ty`, whose
//! `Func` variant carries parameter and result lists directly.

use vstd::prelude::*;

verus! {

broadcast use vstd::std_specs::vec::group_vec_axioms, vstd::seq::group_seq_axioms;

/// A decoded value type: the scalar set, the vector type and the
/// reference types.
#[derive(Debug, Clone, Copy, PartialEq, Eq, Structural)]
pub enum ValType {
    I32,
    I64,
    F32,
    F64,
    V128,
    FuncRef,
    ExternRef,
}

/// A reference type; the standalone subset of `ValType`.
#[derive(Debug, Clone, Copy, PartialEq, Eq, Structural)]
pub enum RefType {
    FuncRef,
    ExternRef,
}

/// A function type: an ordered parameter list and an ordered result list.
/// Equality is structural.
#[derive(Debug, PartialEq, Eq)]
pub struct FuncType {
    pub params: Vec<ValType>,
    pub results: Vec<ValType>,
}

impl Clone for FuncType {
    fn clone(&self) -> (r: FuncType)
        ensures
            r.params@ == self.params@,
            r.results@ == self.results@,
    {
        FuncType { params: copy_valtypes(&self.params), results: copy_valtypes(&self.results) }
    }
}

/// Copy a vector of value types element by element.
pub fn copy_valtypes(v: &Vec<ValType>) -> (r: Vec<ValType>)
    ensures
        r@ == v@,
{
    let mut r: Vec<ValType> = Vec::new();
    let mut i: usize = 0;
    while i < v.len()
        invariant
            i <= v@.len(),
            r@ == v@.subrange(0, i as int),
        decreases v@.len() - i,
    {
        r.push(v[i]);
        proof {
            assert(v@.subrange(0, i as int).push(v@[i as int]) =~= v@.subrange(0, i + 1));
        }
        i = i + 1;
    }
    proof {
        assert(v@.subrange(0, v@.len() as int) =~= v@);
    }
    r
}

/// Resource limits: a required minimum and an optional maximum, both
/// unsigned 32-bit. When `max` is present, well-formed limits have
/// `min <= max`.
#[derive(Debug, Clone, Copy, PartialEq, Eq)]
pub struct Limits {
    pub min: u32,
    pub max: Option<u32>,
}

impl Limits {
    /// The invariant of well-formed limits.
    pub open spec fn wf(self) -> bool {
        match self.max {
            Some(m) => self.min <= m,
            None => true,
        }
    }
}

/// A table type: limits plus the element reference type.
#[derive(Debug, Clone, Copy, PartialEq, Eq)]
pub struct TableType {
    pub limits: Limits,
    pub elem_type: RefType,
}

/// A memory type: limits only.
#[derive(Debug, Clone, Copy, PartialEq, Eq)]
pub struct MemType {
    pub limits: Limits,
}

/// Whether a global may be written after initialisation.
#[derive(Debug, Clone, Copy, PartialEq, Eq, Structural)]
pub enum Mutability {
    Const,
    Var,
}

/// A global type: a value type and its mutability.
#[derive(Debug, Clone, Copy, PartialEq, Eq)]
pub struct GlobalType {
    pub val_type: ValType,
    pub mutability: Mutability,
}

pub type TypeIdx = u32;

pub type FuncIdx = u32;

pub type TableIdx = u32;

pub type MemIdx = u32;

pub type GlobalIdx = u32;

/// The engine-side type: scalars, the vector type, reference types, and a
/// function type carrying its parameter and result lists.
#[derive(Debug, PartialEq, Eq)]
pub enum Ty {
    I32,
    I64,
    F32,
    F64,
    V128,
    FuncRef,
    ExternRef,
    Func(Vec<Ty>, Vec<Ty>),
}

/// The mathematical shape of a `Ty`: the same tree with sequences for
/// vectors. Contracts compare types through this view.
pub enum TyV {
    I32,
    I64,
    F32,
    F64,
    V128,
    FuncRef,
    ExternRef,
    Func(Seq<TyV>, Seq<TyV>),
}

/// The view of an engine-side type.
pub open spec fn ty_view(t: Ty) -> TyV
    decreases t,
{
    match t {
        Ty::I32 => TyV::I32,
        Ty::I64 => TyV::I64,
        Ty::F32 => TyV::F32,
        Ty::F64 => TyV::F64,
        Ty::V128 => TyV::V128,
        Ty::FuncRef => TyV::FuncRef,
        Ty::ExternRef => TyV::ExternRef,
        Ty::Func(params, results) => TyV::Func(tys_view(params@), tys_view(results@)),
    }
}

/// The elementwise view of a sequence of engine-side types.
pub open spec fn tys_view(s: Seq<Ty>) -> Seq<TyV>
    decreases s,
{
    Seq::new(
        s.len(),
        |i: int|
            if 0 <= i < s.len() {
                ty_view(s[i])
            } else {
                TyV::I32
            },
    )
}

impl Clone for Ty {
    fn clone(&self) -> (r: Ty)
        ensures
            ty_view(r) == ty_view(*self),
        decreases self,
    {
        match self {
            Ty::I32 => Ty::I32,
            Ty::I64 => Ty::I64,
            Ty::F32 => Ty::F32,
            Ty::F64 => Ty::F64,
            Ty::V128 => Ty::V128,
            Ty::FuncRef => Ty::FuncRef,
            Ty::ExternRef => Ty::ExternRef,
            Ty::Func(params, results) => {
                let ps = clone_tys(params);
                let rs = clone_tys(results);
                proof {
                    assert(tys_view(ps@) =~= tys_view(params@));
                    assert(tys_view(rs@) =~= tys_view(results@));
                }
                Ty::Func(ps, rs)
            },
        }
    }
}

/// Clone a vector of engine-side types element by element.
pub fn clone_tys(v: &Vec<Ty>) -> (r: Vec<Ty>)
    ensures
        tys_view(r@) == tys_view(v@),
    decreases v,
{
    let mut r: Vec<Ty> = Vec::new();
    let mut i: usize = 0;
    while i < v.len()
        invariant
            i <= v@.len(),
            r@.len() == i,
            forall|k: int| 0 <= k < i ==> ty_view(r@[k]) == ty_view(v@[k]),
        decreases v@.len() - i,
    {
        r.push(v[i].clone());
        i = i + 1;
    }
    proof {
        assert(tys_view(r@) =~= tys_view(v@));
    }
    r
}

impl Ty {
    /// The parameter and result lists of a function type.
    pub fn func_tys(&self) -> (r: (&Vec<Ty>, &Vec<Ty>))
        requires
            self is Func,
        ensures
            *self == Ty::Func(*r.0, *r.1),
    {
        match self {
            Ty::Func(args, res) => (args, res),
            _ => unreached(),
        }
    }
}

/// The type annotation on a `block`, `loop` or `if`: no result, an index
/// into the type table, or a single value-type result.
#[derive(Debug, PartialEq, Eq)]
pub enum BlockType {
    Empty,
    Index(usize),
    ValTy(Ty),
}

/// The mathematical shape of a `BlockType`.
pub enum BlockTypeV {
    Empty,
    Index(usize),
    ValTy(TyV),
}

/// The view of a block type.
pub open spec fn block_type_view(bt: BlockType) -> BlockTypeV {
    match bt {
        BlockType::Empty => BlockTypeV::Empty,
        BlockType::Index(i) => BlockTypeV::Index(i),
        BlockType::ValTy(t) => BlockTypeV::ValTy(ty_view(t)),
    }
}

impl Clone for BlockType {
    fn clone(&self) -> (r: BlockType)
        ensures
            block_type_view(r) == block_type_view(*self),
    {
        match self {
            BlockType::Empty => BlockType::Empty,
            BlockType::Index(i) => BlockType::Index(*i),
            BlockType::ValTy(t) => BlockType::ValTy(t.clone()),
        }
    }
}

/// One virtual-machine instruction.
#[derive(Debug, PartialEq, Eq)]
pub enum Instr {
    Unreachable,
    Nop,
    Drop,
    I32Const(i32),
    I32Add,
    I32Sub,
    I32Mul,
    I32Eq,
    LocalGet(usize),
    LocalSet(usize),
    LocalTee(usize),
    Br(usize),
    If(BlockType, Vec<Instr>, Vec<Instr>),
    Loop(BlockType, Vec<Instr>),
    Block(BlockType, Vec<Instr>),
}

/// The mathematical shape of an instruction: nested bodies become
/// sequences. The execution semantics is stated over this view.
pub enum InstrV {
    Unreachable,
    Nop,
    Drop,
    I32Const(i32),
    I32Add,
    I32Sub,
    I32Mul,
    I32Eq,
    LocalGet(usize),
    LocalSet(usize),
    LocalTee(usize),
    Br(usize),
    If(BlockTypeV, Seq<InstrV>, Seq<InstrV>),
    Loop(BlockTypeV, Seq<InstrV>),
    Block(BlockTypeV, Seq<InstrV>),
}

/// The view of an instruction.
pub open spec fn instr_view(i: Instr) -> InstrV
    decreases i,
{
    match i {
        Instr::Unreachable => InstrV::Unreachable,
        Instr::Nop => InstrV::Nop,
        Instr::Drop => InstrV::Drop,
        Instr::I32Const(c) => InstrV::I32Const(c),
        Instr::I32Add => InstrV::I32Add,
        Instr::I32Sub => InstrV::I32Sub,
        Instr::I32Mul => InstrV::I32Mul,
        Instr::I32Eq => InstrV::I32Eq,
        Instr::LocalGet(x) => InstrV::LocalGet(x),
        Instr::LocalSet(x) => InstrV::LocalSet(x),
        Instr::LocalTee(x) => InstrV::LocalTee(x),
        Instr::Br(n) => InstrV::Br(n),
        Instr::If(bt, then_body, else_body) => InstrV::If(
            block_type_view(bt),
            instrs_view(then_body@),
            instrs_view(else_body@),
        ),
        Instr::Loop(bt, body) => InstrV::Loop(block_type_view(bt), instrs_view(body@)),
        Instr::Block(bt, body) => InstrV::Block(block_type_view(bt), instrs_view(body@)),
    }
}

/// The elementwise view of an instruction sequence.
pub open spec fn instrs_view(s: Seq<Instr>) -> Seq<InstrV>
    decreases s,
{
    Seq::new(
        s.len(),
        |i: int|
            if 0 <= i < s.len() {
                instr_view(s[i])
            } else {
                InstrV::Nop
            },
    )
}

impl Clone for Instr {
    fn clone(&self) -> (r: Instr)
        ensures
            instr_view(r) == instr_view(*self),
        decreases self,
    {
        match self {
            Instr::Unreachable => Instr::Unreachable,
            Instr::Nop => Instr::Nop,
            Instr::Drop => Instr::Drop,
            Instr::I32Const(c) => Instr::I32Const(*c),
            Instr::I32Add => Instr::I32Add,
            Instr::I32Sub => Instr::I32Sub,
            Instr::I32Mul => Instr::I32Mul,
            Instr::I32Eq => Instr::I32Eq,
            Instr::LocalGet(i) => Instr::LocalGet(*i),
            Instr::LocalSet(i) => Instr::LocalSet(*i),
            Instr::LocalTee(i) => Instr::LocalTee(*i),
            Instr::Br(n) => Instr::Br(*n),
            Instr::If(bt, then_body, else_body) => {
                let t = clone_instrs(then_body);
                let e = clone_instrs(else_body);
                Instr::If(bt.clone(), t, e)
            },
            Instr::Loop(bt, body) => Instr::Loop(bt.clone(), clone_instrs(body)),
            Instr::Block(bt, body) => Instr::Block(bt.clone(), clone_instrs(body)),
        }
    }
}

/// Clone an instruction sequence element by element.
pub fn clone_instrs(v: &Vec<Instr>) -> (r: Vec<Instr>)
    ensures
        instrs_view(r@) == instrs_view(v@),
    decreases v,
{
    let mut r: Vec<Instr> = Vec::new();
    let mut i: usize = 0;
    while i < v.len()
        invariant
            i <= v@.len(),
            r@.len() == i,
            forall|k: int| 0 <= k < i ==> instr_view(r@[k]) == instr_view(v@[k]),
        decreases v@.len() - i,
    {
        r.push(v[i].clone());
        i = i + 1;
    }
    proof {
        assert(instrs_view(r@) =~= instrs_view(v@));
    }
    r
}

/// A runtime value: a scalar, a float or vector bit pattern, or a null
/// reference. Floating-point and vector values are carried as their raw
/// bit patterns; the engine moves them without interpreting them.
#[derive(Debug, Clone, Copy, PartialEq, Eq, Structural)]
pub enum Val {
    I32(i32),
    I64(i64),
    F32Bits(u32),
    F64Bits(u64),
    V128Bits(u64, u64),
    NULL(RefType),
}

/// The zero value of each value type, used to seed declared locals.
pub open spec fn zero_val(v: ValType) -> Val {
    match v {
        ValType::I32 => Val::I32(0),
        ValType::I64 => Val::I64(0),
        ValType::F32 => Val::F32Bits(0),
        ValType::F64 => Val::F64Bits(0),
        ValType::V128 => Val::V128Bits(0, 0),
        ValType::FuncRef => Val::NULL(RefType::FuncRef),
        ValType::ExternRef => Val::NULL(RefType::ExternRef),
    }
}

/// Zero values for a whole locals declaration.
pub open spec fn zero_locals(decl: Seq<ValType>) -> Seq<Val> {
    Seq::new(decl.len(), |i: int| zero_val(decl[i]))
}

/// Build the zero values for a locals declaration.
pub fn zero_vals(decl: &Vec<ValType>) -> (r: Vec<Val>)
    ensures
        r@ == zero_locals(decl@),
{
    let mut r: Vec<Val> = Vec::new();
    let mut i: usize = 0;
    while i < decl.len()
        invariant
            i <= decl@.len(),
            r@.len() == i,
            forall|k: int| 0 <= k < i ==> r@[k] == zero_val(decl@[k]),
        decreases decl@.len() - i,
    {
        let v = match decl[i] {
            ValType::I32 => Val::I32(0),
            ValType::I64 => Val::I64(0),
            ValType::F32 => Val::F32Bits(0),
            ValType::F64 => Val::F64Bits(0),
            ValType::V128 => Val::V128Bits(0, 0),
            ValType::FuncRef => Val::NULL(RefType::FuncRef),
            ValType::ExternRef => Val::NULL(RefType::ExternRef),
        };
        r.push(v);
        i = i + 1;
    }
    proof {
        assert(r@ =~= zero_locals(decl@));
    }
    r
}

/// The function type that a block-type annotation denotes: `Empty` is
/// `[] -> []`, an index is looked up in `ind_tys`, and a value type `t`
/// is `[] -> [t]`.
pub fn block_type(ind_tys: &Vec<Ty>, ty: &BlockType) -> (r: Ty)
    requires
        ty matches BlockType::Index(i) ==> i < ind_tys@.len(),
    ensures
        ty is Empty ==> (r matches Ty::Func(p, q) && p@.len() == 0 && q@.len() == 0),
        ty matches BlockType::Index(i) ==> ty_view(r) == ty_view(ind_tys@[i as int]),
        ty matches BlockType::ValTy(t) ==> (r matches Ty::Func(p, q) && p@.len() == 0
            && tys_view(q@) == seq![ty_view(*t)]),
{
    match ty {
        BlockType::Empty => Ty::Func(Vec::new(), Vec::new()),
        BlockType::Index(i) => ind_tys[*i].clone(),
        BlockType::ValTy(t) => {
            let mut results: Vec<Ty> = Vec::new();
            results.push(t.clone());
            proof {
                assert(tys_view(results@) =~= seq![ty_view(*t)]);
            }
            Ty::Func(Vec::new(), results)
        },
    }
}

} // verus!
