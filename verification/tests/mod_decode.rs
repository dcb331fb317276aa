use wasmvm::engine::{Instance, RunOutcome};
use wasmvm::module::invoke;
use wasmvm::error::BinaryError;
use wasmvm::module::{
    global_read, global_write, mem_read, mem_size, mem_write, module_decode, table_read,
    table_size, table_write, ExternType, GlobalInst, Import, ImportDesc, MemInst, Module, Ref,
    Store, TableInst,
};
use wasmvm::types::{
    FuncType, GlobalType, Instr, Limits, MemType, Mutability, RefType, TableType, Val, ValType,
};

/// A module with one type `[] -> [i32]`, one function of that type, and a
/// body `i32.const 42`.
fn const42_module() -> Vec<u8> {
    vec![
        0x00, 0x61, 0x73, 0x6D, // magic
        0x01, 0x00, 0x00, 0x00, // version
        0x01, 0x05, 0x01, 0x60, 0x00, 0x01, 0x7F, // type section
        0x03, 0x02, 0x01, 0x00, // function section
        0x0A, 0x06, 0x01, 0x04, 0x00, 0x41, 0x2A, 0x0B, // code section
    ]
}

#[test]
fn test_module_decode_end_to_end() {
    let bytes = const42_module();
    let m = module_decode(&bytes).unwrap();
    assert_eq!(m.types.len(), 1);
    assert_eq!(m.types[0].params.len(), 0);
    assert_eq!(m.types[0].results, vec![ValType::I32]);
    assert_eq!(m.functions, vec![0]);
    assert_eq!(m.code.len(), 1);
    assert!(matches!(m.code[0].body.instrs[0], Instr::I32Const(42)));
    assert!(m.validate().is_ok());

    // Run the decoded body.
    let mut vm = Instance::new();
    match vm.run(&m.code[0].body.instrs, 1000) {
        RunOutcome::Values(vals) => assert_eq!(vals, vec![Val::I32(42)]),
        other => panic!("expected values, got {:?}", other),
    }
}

#[test]
fn test_module_decode_skips_unknown_sections() {
    let bytes = vec![
        0x00, 0x61, 0x73, 0x6D, 0x01, 0x00, 0x00, 0x00, // preamble
        0x00, 0x03, 0x01, 0x41, 0x42, // custom section, skipped
        0x0B, 0x02, 0x01, 0x02, // data section (id 11), skipped
    ];
    let m = module_decode(&bytes).unwrap();
    assert_eq!(m.types.len(), 0);
    assert_eq!(m.functions.len(), 0);
    assert_eq!(m.code.len(), 0);
}

#[test]
fn test_module_decode_bad_magic() {
    let bytes = vec![0x00, 0x61, 0x73, 0x6E, 0x01, 0x00, 0x00, 0x00];
    let err = module_decode(&bytes).unwrap_err();
    assert_eq!(err.kind, BinaryError::InvalidMagic);
}

#[test]
fn test_module_decode_bad_version() {
    let bytes = vec![0x00, 0x61, 0x73, 0x6D, 0x02, 0x00, 0x00, 0x00];
    let err = module_decode(&bytes).unwrap_err();
    assert_eq!(err.kind, BinaryError::InvalidVersion);
}

#[test]
fn test_module_decode_truncated_prefixes_never_panic() {
    // Decoder totality: every truncated prefix of a well-formed module
    // fails cleanly, with a location inside the input.
    let bytes = const42_module();
    for n in 0..bytes.len() {
        let prefix = &bytes[..n];
        match module_decode(prefix) {
            // A cut at a section boundary is itself a well-formed module.
            Ok(_) => assert!(n == 8 || n == 15 || n == 19),
            Err(e) => assert!(e.location.offset <= prefix.len()),
        }
    }
    assert!(module_decode(&bytes).is_ok());
}

#[test]
fn test_module_decode_section_size_mismatch() {
    // Type section claims 6 payload bytes but its vector ends after 5.
    let bytes = vec![
        0x00, 0x61, 0x73, 0x6D, 0x01, 0x00, 0x00, 0x00, // preamble
        0x01, 0x06, 0x01, 0x60, 0x00, 0x01, 0x7F, 0x00, // bad type section
    ];
    let err = module_decode(&bytes).unwrap_err();
    assert_eq!(err.kind, BinaryError::InvalidSectionSize);
}

#[test]
fn test_module_new_and_default() {
    let m = Module::new();
    assert_eq!(m.types.len(), 0);
    assert_eq!(m.functions.len(), 0);
    assert!(m.start.is_none());
    let d = Module::default();
    assert_eq!(d.code.len(), 0);
}

#[test]
fn test_module_validate() {
    let mut m = module_decode(&const42_module()).unwrap();
    assert!(m.validate().is_ok());
    m.functions.push(7);
    assert!(m.validate().is_err());
}

#[test]
fn test_module_imports() {
    let mut m = Module::new();
    m.types.push(FuncType { params: vec![ValType::I32], results: vec![] });
    m.imports.push(Import {
        module: "env".to_string(),
        name: "print".to_string(),
        desc: ImportDesc::Func(0),
    });
    let imports = m.module_imports();
    assert_eq!(imports.len(), 1);
    assert_eq!(imports[0].0, "env");
    assert_eq!(imports[0].1, "print");
    match &imports[0].2 {
        ExternType::Func(ft) => assert_eq!(ft.params, vec![ValType::I32]),
        other => panic!("expected a function import, got {:?}", other),
    }
}

#[test]
fn test_store_new() {
    let s = Store::new();
    assert_eq!(s.funcs.len(), 0);
    assert_eq!(s.tables.len(), 0);
    let d = Store::default();
    assert_eq!(d.mems.len(), 0);
}

#[test]
fn test_store_globals() {
    let mut s = Store::new();
    s.globals.push(GlobalInst {
        global_type: GlobalType { val_type: ValType::I32, mutability: Mutability::Var },
        value: Val::I32(1),
    });
    s.globals.push(GlobalInst {
        global_type: GlobalType { val_type: ValType::I32, mutability: Mutability::Const },
        value: Val::I32(2),
    });
    assert!(global_write(&mut s, 0, Val::I32(5)).is_ok());
    assert_eq!(global_read(&s, 0), Val::I32(5));
    assert!(global_write(&mut s, 1, Val::I32(9)).is_err());
    assert_eq!(global_read(&s, 1), Val::I32(2));
}

#[test]
fn test_store_memory_and_table() {
    let mut s = Store::new();
    s.mems.push(MemInst {
        mem_type: MemType { limits: Limits { min: 1, max: None } },
        data: vec![0; 65536],
    });
    assert_eq!(mem_size(&s, 0), 1);
    assert!(mem_write(&mut s, 0, 10, &[1, 2, 3]).is_ok());
    assert_eq!(mem_read(&s, 0, 10, 3).unwrap(), vec![1, 2, 3]);
    // Bytes on either side of the written range stay untouched.
    assert_eq!(mem_read(&s, 0, 9, 1).unwrap(), vec![0]);
    assert_eq!(mem_read(&s, 0, 13, 1).unwrap(), vec![0]);
    assert!(mem_read(&s, 0, 65536, 1).is_err());

    s.tables.push(TableInst {
        table_type: TableType {
            limits: Limits { min: 2, max: Some(2) },
            elem_type: RefType::FuncRef,
        },
        elem: vec![Ref::Null(RefType::FuncRef), Ref::Null(RefType::FuncRef)],
    });
    assert_eq!(table_size(&s, 0), 2);
    assert!(table_write(&mut s, 0, 1, Ref::Func(4)).is_ok());
    assert_eq!(table_read(&s, 0, 1).unwrap(), Ref::Func(4));
    // The untouched slot keeps its value.
    assert_eq!(table_read(&s, 0, 0).unwrap(), Ref::Null(RefType::FuncRef));
    assert!(table_read(&s, 0, 2).is_err());
}

#[test]
fn test_invoke_seeds_locals_and_runs() {
    // One type [i32] -> [i32]; the body returns local 0 plus one, with a
    // declared i32 local left untouched.
    let bytes = vec![
        0x00, 0x61, 0x73, 0x6D, 0x01, 0x00, 0x00, 0x00, // preamble
        0x01, 0x06, 0x01, 0x60, 0x01, 0x7F, 0x01, 0x7F, // type [i32] -> [i32]
        0x03, 0x02, 0x01, 0x00, // function section
        0x0A, 0x0B, 0x01, 0x09, 0x01, 0x01, 0x7F, // one code entry, one i32 local
        0x20, 0x00, 0x41, 0x01, 0x6A, 0x0B, // local.get 0; i32.const 1; i32.add; end
    ];
    let m = module_decode(&bytes).unwrap();
    assert!(m.validate().is_ok());
    match invoke(&m, 0, vec![Val::I32(41)], 1000) {
        RunOutcome::Values(vals) => assert_eq!(vals, vec![Val::I32(42)]),
        other => panic!("expected values, got {:?}", other),
    }
}
