//! The module tree a decoded binary turns into, and the runtime store
//! structures an embedder keeps instances in. The decoded module is
//! immutable after decoding; the store belongs to the embedder.

use vstd::prelude::*;

verus! {

broadcast use vstd::std_specs::vec::group_vec_axioms, vstd::seq::group_seq_axioms;

use crate::error::{BinaryError, DecodeError};
use crate::primitives::{parse_magic, parse_section_header, parse_version};
use crate::types::{
    FuncType, FuncIdx, GlobalIdx, GlobalType, MemIdx, MemType, Mutability, RefType, TableIdx,
    TableType, TypeIdx, ValType, Instr, Val,
};

/// An instruction sequence, as decoded from a function body or an
/// initialiser.
#[derive(Debug)]
pub struct Expr {
    pub instrs: Vec<Instr>,
}

/// One import: the exporting module's name, the field name, and what the
/// import is.
#[derive(Debug)]
pub struct Import {
    pub module: String,
    pub name: String,
    pub desc: ImportDesc,
}

#[derive(Debug, Clone, Copy, PartialEq, Eq)]
pub enum ImportDesc {
    Func(TypeIdx),
    Table(TableType),
    Memory(MemType),
    Global(GlobalType),
}

#[derive(Debug, Clone, Copy, PartialEq, Eq)]
pub struct Table {
    pub table_type: TableType,
}

#[derive(Debug, Clone, Copy, PartialEq, Eq)]
pub struct Memory {
    pub mem_type: MemType,
}

#[derive(Debug)]
pub struct Global {
    pub global_type: GlobalType,
    pub init_expr: Expr,
}

/// One export: its name and what it names.
#[derive(Debug)]
pub struct Export {
    pub name: String,
    pub desc: ExportDesc,
}

#[derive(Debug, Clone, Copy, PartialEq, Eq)]
pub enum ExportDesc {
    Func(FuncIdx),
    Table(TableIdx),
    Memory(MemIdx),
    Global(GlobalIdx),
}

#[derive(Debug, Clone, Copy, PartialEq, Eq)]
pub struct Start {
    pub func_idx: FuncIdx,
}

#[derive(Debug)]
pub struct Element {
    pub elem_type: RefType,
    pub init: Vec<Expr>,
    pub mode: ElemMode,
}

#[derive(Debug)]
pub enum ElemMode {
    Passive,
    Active { table: TableIdx, offset: Expr },
    Declarative,
}

/// The body definition of one function: its declared locals and its
/// instruction sequence (the trailing `end` is a decoder terminator, not
/// an instruction).
#[derive(Debug)]
pub struct Code {
    pub locals: Vec<ValType>,
    pub body: Expr,
}

#[derive(Debug)]
pub struct Data {
    pub init: Vec<u8>,
    pub mode: DataMode,
}

#[derive(Debug)]
pub enum DataMode {
    Passive,
    Active { memory: MemIdx, offset: Expr },
}

#[derive(Debug)]
pub struct CustomSection {
    pub name: String,
    pub data: Vec<u8>,
}

/// The compile-time representation of a module. The core fills the type,
/// function and code sections from the binary; the other sections are
/// carried for the module-level surface around the core.
#[derive(Debug)]
pub struct Module {
    pub types: Vec<FuncType>,
    pub imports: Vec<Import>,
    pub functions: Vec<TypeIdx>,
    pub tables: Vec<Table>,
    pub memories: Vec<Memory>,
    pub globals: Vec<Global>,
    pub exports: Vec<Export>,
    pub start: Option<Start>,
    pub elements: Vec<Element>,
    pub code: Vec<Code>,
    pub data: Vec<Data>,
    pub data_count: Option<u32>,
    pub customs: Vec<CustomSection>,
}

/// The type of something importable or exportable.
#[derive(Debug)]
pub enum ExternType {
    Func(FuncType),
    Table(TableType),
    Memory(MemType),
    Global(GlobalType),
}

/// A function import's type index stays inside the type table.
pub open spec fn import_desc_ok(imp: Import, ntypes: int) -> bool {
    imp.desc matches ImportDesc::Func(t) ==> (t as int) < ntypes
}

/// How one entry of `module_imports` relates to the import it came from.
pub open spec fn import_triple_ok(
    imp: Import,
    types: Seq<FuncType>,
    entry: (String, String, ExternType),
) -> bool {
    &&& entry.0@ == imp.module@
    &&& entry.1@ == imp.name@
    &&& (match imp.desc {
        ImportDesc::Func(t) => (entry.2 matches ExternType::Func(ft) && ft.params@
            == types[t as int].params@ && ft.results@ == types[t as int].results@),
        ImportDesc::Table(tt) => entry.2 == ExternType::Table(tt),
        ImportDesc::Memory(mt) => entry.2 == ExternType::Memory(mt),
        ImportDesc::Global(gt) => entry.2 == ExternType::Global(gt),
    })
}

impl Module {
    /// The structural invariant of a well-formed module: the function and
    /// code sections pair up, and every function's type index is in
    /// range.
    pub open spec fn wf(self) -> bool {
        &&& self.functions@.len() == self.code@.len()
        &&& forall|i: int|
            0 <= i < self.functions@.len() ==> (self.functions@[i] as int) < self.types@.len()
    }

    /// Create an empty module.
    pub fn new() -> (r: Module)
        ensures
            r.types@.len() == 0,
            r.imports@.len() == 0,
            r.functions@.len() == 0,
            r.tables@.len() == 0,
            r.memories@.len() == 0,
            r.globals@.len() == 0,
            r.exports@.len() == 0,
            r.start is None,
            r.elements@.len() == 0,
            r.code@.len() == 0,
            r.data@.len() == 0,
            r.data_count is None,
            r.customs@.len() == 0,
            r.wf(),
    {
        Module {
            types: Vec::new(),
            imports: Vec::new(),
            functions: Vec::new(),
            tables: Vec::new(),
            memories: Vec::new(),
            globals: Vec::new(),
            exports: Vec::new(),
            start: None,
            elements: Vec::new(),
            code: Vec::new(),
            data: Vec::new(),
            data_count: None,
            customs: Vec::new(),
        }
    }

    /// The imports as (module, name, type) triples. A function import's
    /// type index must be in range.
    pub fn module_imports(&self) -> (r: Vec<(String, String, ExternType)>)
        requires
            forall|i: int|
                0 <= i < self.imports@.len() ==> #[trigger] import_desc_ok(
                    self.imports@[i],
                    self.types@.len() as int,
                ),
        ensures
            r@.len() == self.imports@.len(),
            forall|i: int|
                0 <= i < r@.len() ==> #[trigger] import_triple_ok(
                    self.imports@[i],
                    self.types@,
                    r@[i],
                ),
    {
        let mut r: Vec<(String, String, ExternType)> = Vec::new();
        let mut i: usize = 0;
        while i < self.imports.len()
            invariant
                i <= self.imports@.len(),
                r@.len() == i,
                forall|m: int|
                    0 <= m < self.imports@.len() ==> #[trigger] import_desc_ok(
                        self.imports@[m],
                        self.types@.len() as int,
                    ),
                forall|m: int|
                    0 <= m < i ==> #[trigger] import_triple_ok(self.imports@[m], self.types@, r@[m]),
            decreases self.imports@.len() - i,
        {
            let import = &self.imports[i];
            proof {
                assert(import_desc_ok(self.imports@[i as int], self.types@.len() as int));
            }
            let desc = import.desc;
            let extern_type = match desc {
                ImportDesc::Func(type_idx) => ExternType::Func(self.types[type_idx as usize].clone()),
                ImportDesc::Table(table_type) => ExternType::Table(table_type),
                ImportDesc::Memory(mem_type) => ExternType::Memory(mem_type),
                ImportDesc::Global(global_type) => ExternType::Global(global_type),
            };
            r.push((import.module.clone(), import.name.clone(), extern_type));
            i = i + 1;
        }
        r
    }

    /// Check the structural invariant: `|functions| == |code|` and every
    /// type index in range.
    pub fn validate(&self) -> (r: Result<(), String>)
        ensures
            r is Ok <==> self.wf(),
    {
        if self.functions.len() != self.code.len() {
            return Err("function and code sections differ in length".to_string());
        }
        let mut i: usize = 0;
        while i < self.functions.len()
            invariant
                i <= self.functions@.len(),
                self.functions@.len() == self.code@.len(),
                forall|m: int| 0 <= m < i ==> (self.functions@[m] as int) < self.types@.len(),
            decreases self.functions@.len() - i,
        {
            if self.functions[i] as usize >= self.types.len() {
                return Err("function type index out of range".to_string());
            }
            i = i + 1;
        }
        Ok(())
    }
}

impl Default for Module {
    fn default() -> (r: Module)
        ensures
            r.types@.len() == 0,
            r.functions@.len() == 0,
            r.code@.len() == 0,
            r.wf(),
    {
        Module::new()
    }
}

pub type FuncAddr = u32;

pub type TableAddr = u32;

pub type MemAddr = u32;

pub type GlobalAddr = u32;

pub type ElemAddr = u32;

pub type DataAddr = u32;

pub type ModuleAddr = u32;

/// A host function stands outside the core; it is identified by name
/// here.
#[derive(Debug)]
pub struct HostFunc {
    pub name: String,
}

/// A function instance: a local function's type and code, or a host
/// function.
#[derive(Debug)]
pub enum FuncInst {
    Local { func_type: FuncType, module: ModuleAddr, code: Code },
    Host { func_type: FuncType, host_func: HostFunc },
}

/// A runtime reference value.
#[derive(Debug, Clone, Copy, PartialEq, Eq, Structural)]
pub enum Ref {
    Null(RefType),
    Func(FuncAddr),
    Extern(u32),
}

#[derive(Debug)]
pub struct TableInst {
    pub table_type: TableType,
    pub elem: Vec<Ref>,
}

#[derive(Debug)]
pub struct MemInst {
    pub mem_type: MemType,
    pub data: Vec<u8>,
}

#[derive(Debug)]
pub struct GlobalInst {
    pub global_type: GlobalType,
    pub value: Val,
}

#[derive(Debug)]
pub struct ElemInst {
    pub elem_type: RefType,
    pub elem: Vec<Ref>,
}

#[derive(Debug)]
pub struct DataInst {
    pub data: Vec<u8>,
}

/// The store holds every runtime instance an embedder has allocated.
#[derive(Debug)]
pub struct Store {
    pub funcs: Vec<FuncInst>,
    pub tables: Vec<TableInst>,
    pub mems: Vec<MemInst>,
    pub globals: Vec<GlobalInst>,
    pub elems: Vec<ElemInst>,
    pub datas: Vec<DataInst>,
}

impl Store {
    pub fn new() -> (r: Store)
        ensures
            r.funcs@.len() == 0,
            r.tables@.len() == 0,
            r.mems@.len() == 0,
            r.globals@.len() == 0,
    {
        Store {
            funcs: Vec::new(),
            tables: Vec::new(),
            mems: Vec::new(),
            globals: Vec::new(),
            elems: Vec::new(),
            datas: Vec::new(),
        }
    }
}

impl Default for Store {
    fn default() -> (r: Store)
        ensures
            r.funcs@.len() == 0,
            r.tables@.len() == 0,
            r.mems@.len() == 0,
            r.globals@.len() == 0,
    {
        Store::new()
    }
}

/// A module instance: the runtime addresses its index spaces resolved to.
#[derive(Debug)]
pub struct ModuleInst {
    pub types: Vec<FuncType>,
    pub func_addrs: Vec<FuncAddr>,
    pub table_addrs: Vec<TableAddr>,
    pub mem_addrs: Vec<MemAddr>,
    pub global_addrs: Vec<GlobalAddr>,
    pub elem_addrs: Vec<ElemAddr>,
    pub data_addrs: Vec<DataAddr>,
    pub exports: Vec<ExportInst>,
}

#[derive(Debug)]
pub struct ExportInst {
    pub name: String,
    pub value: ExternVal,
}

#[derive(Debug, Clone, Copy, PartialEq, Eq, Structural)]
pub enum ExternVal {
    Func(FuncAddr),
    Table(TableAddr),
    Memory(MemAddr),
    Global(GlobalAddr),
}

/// The type of the function at `func_addr`.
pub fn func_type(store: &Store, func_addr: FuncAddr) -> (r: &FuncType)
    requires
        (func_addr as int) < store.funcs@.len(),
    ensures
        (match store.funcs@[func_addr as int] {
            FuncInst::Local { func_type, .. } => r == func_type,
            FuncInst::Host { func_type, .. } => r == func_type,
        }),
{
    match &store.funcs[func_addr as usize] {
        FuncInst::Local { func_type, .. } => func_type,
        FuncInst::Host { func_type, .. } => func_type,
    }
}

/// Allocate a host function in the store and return its address.
pub fn func_alloc_host(store: &mut Store, func_type: FuncType, host_func: HostFunc) -> (r:
    FuncAddr)
    requires
        old(store).funcs@.len() < u32::MAX,
    ensures
        r as int == old(store).funcs@.len(),
        final(store).funcs@ == old(store).funcs@.push(FuncInst::Host { func_type, host_func }),
        final(store).tables@ == old(store).tables@,
        final(store).mems@ == old(store).mems@,
        final(store).globals@ == old(store).globals@,
{
    let addr = store.funcs.len() as u32;
    store.funcs.push(FuncInst::Host { func_type, host_func });
    addr
}

/// Read one element of a table.
pub fn table_read(store: &Store, table_addr: TableAddr, index: u32) -> (r: Result<Ref, String>)
    requires
        (table_addr as int) < store.tables@.len(),
    ensures
        (index as int) < store.tables@[table_addr as int].elem@.len() ==> r == Ok::<Ref, String>(
            store.tables@[table_addr as int].elem@[index as int],
        ),
        (index as int) >= store.tables@[table_addr as int].elem@.len() ==> r is Err,
{
    let table = &store.tables[table_addr as usize];
    if (index as usize) < table.elem.len() {
        Ok(table.elem[index as usize])
    } else {
        Err("table index out of bounds".to_string())
    }
}

/// Write one element of a table.
pub fn table_write(store: &mut Store, table_addr: TableAddr, index: u32, val: Ref) -> (r: Result<
    (),
    String,
>)
    requires
        (table_addr as int) < old(store).tables@.len(),
    ensures
        (index as int) < old(store).tables@[table_addr as int].elem@.len() ==> (r is Ok && final(store).tables@[table_addr as int].elem@ == old(store).tables@[table_addr as int].elem@.update(
            index as int,
            val,
        ) && final(store).tables@[table_addr as int].table_type == old(store).tables@[table_addr as int].table_type),
        (index as int) >= old(store).tables@[table_addr as int].elem@.len() ==> (r is Err && final(store).tables@ == old(store).tables@),
        forall|a: int|
            0 <= a < old(store).tables@.len() && a != table_addr ==> final(store).tables@[a] == old(
                store,
            ).tables@[a],
        final(store).funcs@ == old(store).funcs@,
        final(store).mems@ == old(store).mems@,
        final(store).globals@ == old(store).globals@,
        final(store).tables@.len() == old(store).tables@.len(),
{
    let table_len = store.tables.len();
    let elem_len = store.tables[table_addr as usize].elem.len();
    if (index as usize) < elem_len {
        let tables = &mut store.tables;
        let table = &mut tables[table_addr as usize];
        table.elem.set(index as usize, val);
        Ok(())
    } else {
        Err("table index out of bounds".to_string())
    }
}

/// The number of elements in a table.
pub fn table_size(store: &Store, table_addr: TableAddr) -> (r: u32)
    requires
        (table_addr as int) < store.tables@.len(),
        store.tables@[table_addr as int].elem@.len() <= u32::MAX,
    ensures
        r as int == store.tables@[table_addr as int].elem@.len(),
{
    store.tables[table_addr as usize].elem.len() as u32
}

/// Read `len` bytes of a memory at `offset`.
pub fn mem_read(store: &Store, mem_addr: MemAddr, offset: u32, len: u32) -> (r: Result<
    Vec<u8>,
    String,
>)
    requires
        (mem_addr as int) < store.mems@.len(),
    ensures
        offset + len <= store.mems@[mem_addr as int].data@.len() ==> (r matches Ok(v) && v@
            == store.mems@[mem_addr as int].data@.subrange(offset as int, offset + len)),
        offset + len > store.mems@[mem_addr as int].data@.len() ==> r is Err,
{
    let mem = &store.mems[mem_addr as usize];
    let dlen = mem.data.len();
    let off = offset as usize;
    let want = len as usize;
    if off > dlen || dlen - off < want {
        return Err("memory access out of bounds".to_string());
    }
    let start = off;
    let end = start + want;
    let full = mem.data.as_slice();
    let slice = &full[start..end];
    let mut out: Vec<u8> = Vec::new();
    let mut i: usize = 0;
    while i < slice.len()
        invariant
            i <= slice@.len(),
            out@ == slice@.subrange(0, i as int),
        decreases slice@.len() - i,
    {
        out.push(slice[i]);
        proof {
            assert(slice@.subrange(0, i as int).push(slice@[i as int]) =~= slice@.subrange(
                0,
                i + 1,
            ));
        }
        i = i + 1;
    }
    proof {
        assert(slice@.subrange(0, slice@.len() as int) =~= slice@);
    }
    Ok(out)
}

/// Write `data` into a memory at `offset`.
pub fn mem_write(store: &mut Store, mem_addr: MemAddr, offset: u32, data: &[u8]) -> (r: Result<
    (),
    String,
>)
    requires
        (mem_addr as int) < old(store).mems@.len(),
    ensures
        offset + data@.len() <= old(store).mems@[mem_addr as int].data@.len() ==> (r is Ok && final(store).mems@[mem_addr as int].data@ == old(store).mems@[mem_addr as int].data@.subrange(
            0,
            offset as int,
        ) + data@ + old(store).mems@[mem_addr as int].data@.subrange(
            offset + data@.len(),
            old(store).mems@[mem_addr as int].data@.len() as int,
        )),
        offset + data@.len() > old(store).mems@[mem_addr as int].data@.len() ==> (r is Err && final(store).mems@ == old(store).mems@),
        forall|a: int|
            0 <= a < old(store).mems@.len() && a != mem_addr ==> final(store).mems@[a] == old(
                store,
            ).mems@[a],
        final(store).mems@[mem_addr as int].mem_type == old(store).mems@[mem_addr as int].mem_type,
        final(store).funcs@ == old(store).funcs@,
        final(store).tables@ == old(store).tables@,
        final(store).globals@ == old(store).globals@,
        final(store).mems@.len() == old(store).mems@.len(),
{
    let mem_len = store.mems[mem_addr as usize].data.len();
    let off = offset as usize;
    if off > mem_len || mem_len - off < data.len() {
        return Err("memory access out of bounds".to_string());
    }
    let ghost old_data = store.mems@[mem_addr as int].data@;
    let mut i: usize = 0;
    while i < data.len()
        invariant
            i <= data@.len(),
            (mem_addr as int) < store.mems@.len(),
            offset + data@.len() <= old_data.len(),
            old_data.len() <= usize::MAX,
            store.mems@[mem_addr as int].data@.len() == old_data.len(),
            forall|m: int|
                0 <= m < old_data.len() ==> store.mems@[mem_addr as int].data@[m] == (if offset
                    <= m < offset + i {
                    data@[m - offset]
                } else {
                    old_data[m]
                }),
            forall|a: int|
                0 <= a < store.mems@.len() && a != mem_addr ==> store.mems@[a] == old(store).mems@[a],
            store.mems@[mem_addr as int].mem_type == old(store).mems@[mem_addr as int].mem_type,
            store.mems@.len() == old(store).mems@.len(),
            store.funcs@ == old(store).funcs@,
            store.tables@ == old(store).tables@,
            store.globals@ == old(store).globals@,
        decreases data@.len() - i,
    {
        let b = data[i];
        let mems = &mut store.mems;
        let mem = &mut mems[mem_addr as usize];
        mem.data.set(offset as usize + i, b);
        i = i + 1;
    }
    proof {
        assert(store.mems@[mem_addr as int].data@ =~= old_data.subrange(0, offset as int) + data@
            + old_data.subrange(offset + data@.len(), old_data.len() as int));
    }
    Ok(())
}

/// The size of a memory in 64 KiB pages.
pub fn mem_size(store: &Store, mem_addr: MemAddr) -> (r: u32)
    requires
        (mem_addr as int) < store.mems@.len(),
        store.mems@[mem_addr as int].data@.len() / 65536 <= u32::MAX,
    ensures
        r as int == store.mems@[mem_addr as int].data@.len() / 65536,
{
    (store.mems[mem_addr as usize].data.len() / 65536) as u32
}

/// Read a global's value.
pub fn global_read(store: &Store, global_addr: GlobalAddr) -> (r: Val)
    requires
        (global_addr as int) < store.globals@.len(),
    ensures
        r == store.globals@[global_addr as int].value,
{
    store.globals[global_addr as usize].value
}

/// Write a global's value; only mutable globals accept a write.
pub fn global_write(store: &mut Store, global_addr: GlobalAddr, val: Val) -> (r: Result<
    (),
    String,
>)
    requires
        (global_addr as int) < old(store).globals@.len(),
    ensures
        old(store).globals@[global_addr as int].global_type.mutability == Mutability::Var ==> (r
            is Ok && final(store).globals@ == old(store).globals@.update(
            global_addr as int,
            GlobalInst {
                global_type: old(store).globals@[global_addr as int].global_type,
                value: val,
            },
        )),
        old(store).globals@[global_addr as int].global_type.mutability != Mutability::Var ==> (r
            is Err && final(store).globals@ == old(store).globals@),
        final(store).funcs@ == old(store).funcs@,
        final(store).tables@ == old(store).tables@,
        final(store).mems@ == old(store).mems@,
        final(store).globals@.len() == old(store).globals@.len(),
{
    let is_var = match store.globals[global_addr as usize].global_type.mutability {
        Mutability::Var => true,
        Mutability::Const => false,
    };
    if is_var {
        let gt = store.globals[global_addr as usize].global_type;
        let globals = &mut store.globals;
        globals.set(global_addr as usize, GlobalInst { global_type: gt, value: val });
        Ok(())
    } else {
        Err("global is immutable".to_string())
    }
}


/// One framing step: read a section header at `p`, decode a recognised
/// payload into the module, and return the position after the section.
#[verifier::rlimit(100)]
fn decode_section(bytes: &[u8], p: usize, m: &mut Module) -> (r: Result<usize, DecodeError>)
    requires
        p < bytes@.len(),
    ensures
        (r matches Ok(next) ==> p < next <= bytes@.len() && crate::sections::sp_sections(
            bytes@,
            p as int,
            crate::sections::func_types_view(old(m).types@),
            old(m).functions@,
            crate::sections::codes_view(old(m).code@),
        ) == crate::sections::sp_sections(
            bytes@,
            next as int,
            crate::sections::func_types_view(final(m).types@),
            final(m).functions@,
            crate::sections::codes_view(final(m).code@),
        )),
        (r matches Err(e) ==> crate::sections::sp_sections(
            bytes@,
            p as int,
            crate::sections::func_types_view(old(m).types@),
            old(m).functions@,
            crate::sections::codes_view(old(m).code@),
        ) == Err::<
            (Seq<(Seq<ValType>, Seq<ValType>)>, Seq<u32>, Seq<(Seq<ValType>, Seq<crate::types::InstrV>)>),
            BinaryError,
        >(e.kind) && e.location.offset <= bytes@.len()),
        final(m).imports@ == old(m).imports@,
        final(m).tables@ == old(m).tables@,
        final(m).memories@ == old(m).memories@,
        final(m).globals@ == old(m).globals@,
        final(m).exports@ == old(m).exports@,
        final(m).start == old(m).start,
        final(m).elements@ == old(m).elements@,
        final(m).data@ == old(m).data@,
        final(m).data_count == old(m).data_count,
        final(m).customs@ == old(m).customs@,
{
    let (header, hp) = match parse_section_header(bytes, p) {
        Ok(v) => v,
        Err(e) => {
            return Err(e);
        },
    };
    let id = header.0.value;
    let size = header.1.value;
    if size as usize > bytes.len() - hp {
        return Err(DecodeError::new(BinaryError::UnexpectedEOF, hp, 0));
    }
    let next = hp + size as usize;
    let payload = &bytes[hp..next];
    proof {
        assert(payload@ =~= bytes@.subrange(hp as int, hp + size));
    }
    if id == 1 {
        match crate::sections::parse_type_section(payload, 0) {
            Ok((ts, q)) => {
                if q != size as usize {
                    return Err(DecodeError::new(BinaryError::InvalidSectionSize, p, 0));
                }
                m.types = ts;
            },
            Err(e) => {
                return Err(DecodeError::new(e.kind, hp + e.location.offset, e.location.length));
            },
        }
    } else if id == 3 {
        match crate::sections::parse_function_section(payload, 0) {
            Ok((fs, q)) => {
                if q != size as usize {
                    return Err(DecodeError::new(BinaryError::InvalidSectionSize, p, 0));
                }
                m.functions = fs;
            },
            Err(e) => {
                return Err(DecodeError::new(e.kind, hp + e.location.offset, e.location.length));
            },
        }
    } else if id == 10 {
        match crate::sections::parse_code_section(payload, 0) {
            Ok((cs, q)) => {
                if q != size as usize {
                    return Err(DecodeError::new(BinaryError::InvalidSectionSize, p, 0));
                }
                m.code = cs;
            },
            Err(e) => {
                return Err(DecodeError::new(e.kind, hp + e.location.offset, e.location.length));
            },
        }
    }
    Ok(next)
}

/// Decode a binary module: magic and version, then a sequence of
/// `(id, size, payload)` sections. The type, function and code sections
/// fill the module; other ids, custom sections included, are tolerated
/// and skipped. Decoding is all-or-nothing, and every error points at a
/// position inside the input.
pub fn module_decode(bytes: &[u8]) -> (r: Result<Module, DecodeError>)
    ensures
        (r matches Ok(m) ==> crate::sections::sp_module(bytes@) == Ok::<
            (Seq<(Seq<ValType>, Seq<ValType>)>, Seq<u32>, Seq<(Seq<ValType>, Seq<crate::types::InstrV>)>),
            BinaryError,
        >(
            (
                crate::sections::func_types_view(m.types@),
                m.functions@,
                crate::sections::codes_view(m.code@),
            ),
        ) && m.imports@.len() == 0 && m.tables@.len() == 0 && m.memories@.len() == 0
            && m.globals@.len() == 0 && m.exports@.len() == 0 && m.start is None
            && m.elements@.len() == 0 && m.data@.len() == 0 && m.data_count is None
            && m.customs@.len() == 0),
        (r matches Err(e) ==> crate::sections::sp_module(bytes@) == Err::<
            (Seq<(Seq<ValType>, Seq<ValType>)>, Seq<u32>, Seq<(Seq<ValType>, Seq<crate::types::InstrV>)>),
            BinaryError,
        >(e.kind) && e.location.offset <= bytes@.len()),
{
    let (_, _after_magic) = match parse_magic(bytes, 0) {
        Ok(v) => v,
        Err(e) => {
            return Err(e);
        },
    };
    let (_, _after_version) = match parse_version(bytes, 4) {
        Ok(v) => v,
        Err(e) => {
            return Err(e);
        },
    };
    let mut m = Module::new();
    proof {
        assert(bytes@.subrange(0, 4) == crate::primitives::magic_bytes());
        assert(bytes@.subrange(4, 8) == crate::primitives::version_bytes());
        assert(crate::sections::func_types_view(m.types@) =~= Seq::<
            (Seq<ValType>, Seq<ValType>),
        >::empty());
        assert(crate::sections::codes_view(m.code@) =~= Seq::<
            (Seq<ValType>, Seq<crate::types::InstrV>),
        >::empty());
        assert(m.functions@ =~= Seq::<u32>::empty());
    }
    let mut p: usize = 8;
    #[verifier::loop_isolation(false)]
    while p < bytes.len()
        invariant
            8 <= p <= bytes@.len(),
            m.imports@.len() == 0,
            m.tables@.len() == 0,
            m.memories@.len() == 0,
            m.globals@.len() == 0,
            m.exports@.len() == 0,
            m.start is None,
            m.elements@.len() == 0,
            m.data@.len() == 0,
            m.data_count is None,
            m.customs@.len() == 0,
            crate::sections::sp_module(bytes@) == crate::sections::sp_sections(
                bytes@,
                p as int,
                crate::sections::func_types_view(m.types@),
                m.functions@,
                crate::sections::codes_view(m.code@),
            ),
        decreases bytes@.len() - p,
    {
        match decode_section(bytes, p, &mut m) {
            Ok(next) => {
                p = next;
            },
            Err(e) => {
                return Err(e);
            },
        }
    }
    Ok(m)
}



/// The engine-side view of one decoded function type.
pub open spec fn tyv_of_functype(ft: (Seq<ValType>, Seq<ValType>)) -> crate::types::TyV {
    crate::types::TyV::Func(
        Seq::new(ft.0.len(), |i: int| crate::sections::valtype_tyv(ft.0[i])),
        Seq::new(ft.1.len(), |i: int| crate::sections::valtype_tyv(ft.1[i])),
    )
}

/// The engine-side type table a decoded type section denotes.
pub open spec fn engine_table(fts: Seq<(Seq<ValType>, Seq<ValType>)>) -> Seq<crate::types::TyV> {
    Seq::new(fts.len(), |i: int| tyv_of_functype(fts[i]))
}

/// The engine-side leaf type of one value type.
fn ty_leaf(v: ValType) -> (r: crate::types::Ty)
    ensures
        crate::types::ty_view(r) == crate::sections::valtype_tyv(v),
{
    match v {
        ValType::I32 => crate::types::Ty::I32,
        ValType::I64 => crate::types::Ty::I64,
        ValType::F32 => crate::types::Ty::F32,
        ValType::F64 => crate::types::Ty::F64,
        ValType::V128 => crate::types::Ty::V128,
        ValType::FuncRef => crate::types::Ty::FuncRef,
        ValType::ExternRef => crate::types::Ty::ExternRef,
    }
}

/// Turn a vector of value types into engine-side leaf types.
fn ty_leaves(vs: &Vec<ValType>) -> (r: Vec<crate::types::Ty>)
    ensures
        crate::types::tys_view(r@) == Seq::new(
            vs@.len(),
            |i: int| crate::sections::valtype_tyv(vs@[i]),
        ),
{
    let mut r: Vec<crate::types::Ty> = Vec::new();
    let mut i: usize = 0;
    while i < vs.len()
        invariant
            i <= vs@.len(),
            r@.len() == i,
            forall|k: int|
                0 <= k < i ==> crate::types::ty_view(r@[k]) == crate::sections::valtype_tyv(
                    vs@[k],
                ),
        decreases vs@.len() - i,
    {
        r.push(ty_leaf(vs[i]));
        i = i + 1;
    }
    proof {
        assert(crate::types::tys_view(r@) =~= Seq::new(
            vs@.len(),
            |i: int| crate::sections::valtype_tyv(vs@[i]),
        ));
    }
    r
}

/// Build the engine's type table from a module's type section.
fn build_engine_table(types: &Vec<FuncType>) -> (r: Vec<crate::types::Ty>)
    ensures
        crate::types::tys_view(r@) == engine_table(crate::sections::func_types_view(types@)),
{
    let mut r: Vec<crate::types::Ty> = Vec::new();
    let mut i: usize = 0;
    while i < types.len()
        invariant
            i <= types@.len(),
            r@.len() == i,
            forall|k: int|
                0 <= k < i ==> crate::types::ty_view(r@[k]) == tyv_of_functype(
                    (types@[k].params@, types@[k].results@),
                ),
        decreases types@.len() - i,
    {
        let ft = &types[i];
        let params = ty_leaves(&ft.params);
        let results = ty_leaves(&ft.results);
        r.push(crate::types::Ty::Func(params, results));
        i = i + 1;
    }
    proof {
        assert(crate::types::tys_view(r@) =~= engine_table(
            crate::sections::func_types_view(types@),
        ));
    }
    r
}

/// Whether `invoke`'s outcome is what the small-step semantics yields
/// from the function's initial state under some final locals and state.
pub open spec fn invoke_matches(
    types: Seq<crate::types::TyV>,
    s0: crate::engine::StateV,
    max_steps: nat,
    r: crate::engine::RunOutcome,
) -> bool {
    exists|l: Seq<Val>, s: crate::engine::StateV|
        #[trigger] crate::engine::run_matches(types, s0, max_steps, r, l, s)
}

/// Invoke function `func_index` of a well-formed module: the locals are
/// seeded as the arguments followed by zero values for the declared
/// locals, and the body runs for at most `max_steps` steps against the
/// module's type table.
pub fn invoke(module: &Module, func_index: usize, args: Vec<Val>, max_steps: usize) -> (r:
    crate::engine::RunOutcome)
    requires
        module.wf(),
        func_index < module.functions@.len(),
        args@.len()
            == module.types@[module.functions@[func_index as int] as int].params@.len(),
    ensures
        invoke_matches(
            engine_table(crate::sections::func_types_view(module.types@)),
            crate::engine::init_state(
                crate::types::instrs_view(module.code@[func_index as int].body.instrs@),
                args@ + crate::types::zero_locals(module.code@[func_index as int].locals@),
            ),
            max_steps as nat,
            r,
        ),
{
    let code = &module.code[func_index];
    let mut vm = crate::engine::Instance::new();
    vm.types = build_engine_table(&module.types);
    let mut locals = args;
    let mut zeros = crate::types::zero_vals(&code.locals);
    locals.append(&mut zeros);
    vm.locals = locals;
    let outcome = vm.run(&code.body.instrs, max_steps);
    proof {
        assert(crate::engine::run_matches(
            engine_table(crate::sections::func_types_view(module.types@)),
            crate::engine::init_state(
                crate::types::instrs_view(module.code@[func_index as int].body.instrs@),
                args@ + crate::types::zero_locals(module.code@[func_index as int].locals@),
            ),
            max_steps as nat,
            outcome,
            vm.locals@,
            vm.state(),
        ));
    }
    outcome
}

} // verus!
