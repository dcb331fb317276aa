use wasmvm::error::BinaryError;
use wasmvm::sections::{
    parse_code, parse_code_section, parse_function_section, parse_functype, parse_instructions,
    parse_limits, parse_locals, parse_memtype, parse_reftype, parse_tabletype, parse_type_section,
    parse_valtype,
};
use wasmvm::types::{Instr, RefType, ValType};

#[test]
fn test_parse_valtype_i32() {
    let input = [0x7F, 0xFF];
    let (valtype, after) = parse_valtype(&input, 0).unwrap();
    assert_eq!(valtype, ValType::I32);
    assert_eq!(&input[after..], &[0xFFu8]);
}

#[test]
fn test_parse_valtype_i64() {
    let input = [0x7E];
    let (valtype, _) = parse_valtype(&input, 0).unwrap();
    assert_eq!(valtype, ValType::I64);
}

#[test]
fn test_parse_valtype_f32() {
    let input = [0x7D];
    let (valtype, _) = parse_valtype(&input, 0).unwrap();
    assert_eq!(valtype, ValType::F32);
}

#[test]
fn test_parse_valtype_f64() {
    let input = [0x7C];
    let (valtype, _) = parse_valtype(&input, 0).unwrap();
    assert_eq!(valtype, ValType::F64);
}

#[test]
fn test_parse_valtype_funcref() {
    let input = [0x70];
    let (valtype, _) = parse_valtype(&input, 0).unwrap();
    assert_eq!(valtype, ValType::FuncRef);
}

#[test]
fn test_parse_valtype_externref() {
    let input = [0x6F];
    let (valtype, _) = parse_valtype(&input, 0).unwrap();
    assert_eq!(valtype, ValType::ExternRef);
}

#[test]
fn test_parse_valtype_rejects_unknown_tag() {
    let input = [0x55];
    let err = parse_valtype(&input, 0).unwrap_err();
    assert_eq!(err.kind, BinaryError::TypeMismatch);
}

#[test]
fn test_parse_reftype_tags() {
    let (rt, _) = parse_reftype(&[0x70], 0).unwrap();
    assert_eq!(rt, RefType::FuncRef);
    let (rt2, _) = parse_reftype(&[0x6F], 0).unwrap();
    assert_eq!(rt2, RefType::ExternRef);
    assert!(parse_reftype(&[0x7F], 0).is_err());
}

#[test]
fn test_parse_functype_empty() {
    // 0x60 (functype tag), 0x00 (0 params), 0x00 (0 results)
    let input = [0x60, 0x00, 0x00];
    let (functype, after) = parse_functype(&input, 0).unwrap();
    assert_eq!(functype.params.len(), 0);
    assert_eq!(functype.results.len(), 0);
    assert_eq!(after, input.len());
}

#[test]
fn test_parse_functype_single_param() {
    // 0x60, 0x01 (1 param), 0x7F (i32), 0x00 (0 results)
    let input = [0x60, 0x01, 0x7F, 0x00];
    let (functype, _) = parse_functype(&input, 0).unwrap();
    assert_eq!(functype.params.len(), 1);
    assert_eq!(functype.params[0], ValType::I32);
    assert_eq!(functype.results.len(), 0);
}

#[test]
fn test_parse_functype_single_result() {
    // 0x60, 0x00 (0 params), 0x01 (1 result), 0x7F (i32)
    let input = [0x60, 0x00, 0x01, 0x7F];
    let (functype, _) = parse_functype(&input, 0).unwrap();
    assert_eq!(functype.params.len(), 0);
    assert_eq!(functype.results.len(), 1);
    assert_eq!(functype.results[0], ValType::I32);
}

#[test]
fn test_parse_functype_multiple_params() {
    // 0x60, 0x02 (2 params), 0x7F 0x7E (i32, i64), 0x00 (0 results)
    let input = [0x60, 0x02, 0x7F, 0x7E, 0x00];
    let (functype, _) = parse_functype(&input, 0).unwrap();
    assert_eq!(functype.params.len(), 2);
    assert_eq!(functype.params[0], ValType::I32);
    assert_eq!(functype.params[1], ValType::I64);
    assert_eq!(functype.results.len(), 0);
}

#[test]
fn test_parse_functype_multiple_results() {
    // 0x60, 0x00 (0 params), 0x02 (2 results), 0x7D 0x7C (f32, f64)
    let input = [0x60, 0x00, 0x02, 0x7D, 0x7C];
    let (functype, _) = parse_functype(&input, 0).unwrap();
    assert_eq!(functype.params.len(), 0);
    assert_eq!(functype.results.len(), 2);
    assert_eq!(functype.results[0], ValType::F32);
    assert_eq!(functype.results[1], ValType::F64);
}

#[test]
fn test_parse_functype_complex() {
    // 0x60, 0x04 (4 params), 0x7F 0x7E 0x7D 0x7C, 0x02 (2 results), 0x7F 0x7E
    let input = [0x60, 0x04, 0x7F, 0x7E, 0x7D, 0x7C, 0x02, 0x7F, 0x7E];
    let (functype, _) = parse_functype(&input, 0).unwrap();
    assert_eq!(functype.params.len(), 4);
    assert_eq!(functype.params[0], ValType::I32);
    assert_eq!(functype.params[1], ValType::I64);
    assert_eq!(functype.params[2], ValType::F32);
    assert_eq!(functype.params[3], ValType::F64);
    assert_eq!(functype.results.len(), 2);
    assert_eq!(functype.results[0], ValType::I32);
    assert_eq!(functype.results[1], ValType::I64);
}

#[test]
fn test_parse_type_section_empty() {
    // 0x00 (0 types)
    let input = [0x00];
    let (types, _) = parse_type_section(&input, 0).unwrap();
    assert_eq!(types.len(), 0);
}

#[test]
fn test_parse_type_section_single() {
    // 0x01 (1 type), 0x60 0x00 0x00 (empty functype)
    let input = [0x01, 0x60, 0x00, 0x00];
    let (types, _) = parse_type_section(&input, 0).unwrap();
    assert_eq!(types.len(), 1);
    assert_eq!(types[0].params.len(), 0);
    assert_eq!(types[0].results.len(), 0);
}

#[test]
fn test_parse_type_section_multiple() {
    // 0x02 (2 types)
    // Type 0: 0x60 0x00 0x01 0x7F ([] -> [i32])
    // Type 1: 0x60 0x01 0x7F 0x00 ([i32] -> [])
    let input = [0x02, 0x60, 0x00, 0x01, 0x7F, 0x60, 0x01, 0x7F, 0x00];
    let (types, _) = parse_type_section(&input, 0).unwrap();
    assert_eq!(types.len(), 2);

    // Type 0: [] -> [i32]
    assert_eq!(types[0].params.len(), 0);
    assert_eq!(types[0].results.len(), 1);
    assert_eq!(types[0].results[0], ValType::I32);

    // Type 1: [i32] -> []
    assert_eq!(types[1].params.len(), 1);
    assert_eq!(types[1].params[0], ValType::I32);
    assert_eq!(types[1].results.len(), 0);
}

#[test]
fn test_parse_limits_no_max() {
    // 0x00 (no max), 0x0A (min = 10)
    let input = [0x00, 0x0A];
    let (limits, _) = parse_limits(&input, 0).unwrap();
    assert_eq!(limits.min, 10);
    assert_eq!(limits.max, None);
}

#[test]
fn test_parse_limits_with_max() {
    // 0x01 (has max), 0x0A (min = 10), 0x14 (max = 20)
    let input = [0x01, 0x0A, 0x14];
    let (limits, _) = parse_limits(&input, 0).unwrap();
    assert_eq!(limits.min, 10);
    assert_eq!(limits.max, Some(20));
}

#[test]
fn test_parse_tabletype() {
    // 0x70 (funcref), 0x00 (no max), 0x0A (min = 10)
    let input = [0x70, 0x00, 0x0A];
    let (tabletype, _) = parse_tabletype(&input, 0).unwrap();
    assert_eq!(tabletype.elem_type, RefType::FuncRef);
    assert_eq!(tabletype.limits.min, 10);
    assert_eq!(tabletype.limits.max, None);
}

#[test]
fn test_parse_memtype() {
    // 0x00 (no max), 0x01 (min = 1 page)
    let input = [0x00, 0x01];
    let (memtype, _) = parse_memtype(&input, 0).unwrap();
    assert_eq!(memtype.limits.min, 1);
    assert_eq!(memtype.limits.max, None);
}

#[test]
fn test_parse_function_section_empty() {
    // 0x00 (0 functions)
    let input = [0x00];
    let (functions, _) = parse_function_section(&input, 0).unwrap();
    assert_eq!(functions.len(), 0);
}

#[test]
fn test_parse_function_section_single() {
    // 0x01 (1 function), 0x00 (type index 0)
    let input = [0x01, 0x00];
    let (functions, _) = parse_function_section(&input, 0).unwrap();
    assert_eq!(functions.len(), 1);
    assert_eq!(functions[0], 0);
}

#[test]
fn test_parse_function_section_multiple() {
    // 0x03 (3 functions), 0x00 0x01 0x00 (type indices)
    let input = [0x03, 0x00, 0x01, 0x00];
    let (functions, _) = parse_function_section(&input, 0).unwrap();
    assert_eq!(functions.len(), 3);
    assert_eq!(functions[0], 0);
    assert_eq!(functions[1], 1);
    assert_eq!(functions[2], 0);
}

#[test]
fn test_parse_instructions_nop() {
    // 0x01 (nop), 0x0B (end)
    let input = [0x01, 0x0B];
    let (instrs, _) = parse_instructions(&input, 0).unwrap();
    assert_eq!(instrs.len(), 1);
    assert!(matches!(instrs[0], Instr::Nop));
}

#[test]
fn test_parse_instructions_i32_const() {
    // 0x41 (i32.const), 0x2A (42), 0x0B (end)
    let input = [0x41, 0x2A, 0x0B];
    let (instrs, _) = parse_instructions(&input, 0).unwrap();
    assert_eq!(instrs.len(), 1);
    assert!(matches!(instrs[0], Instr::I32Const(42)));
}

#[test]
fn test_parse_instructions_i32_add() {
    // 0x41 0x01 (i32.const 1)
    // 0x41 0x02 (i32.const 2)
    // 0x6A (i32.add)
    // 0x0B (end)
    let input = [0x41, 0x01, 0x41, 0x02, 0x6A, 0x0B];
    let (instrs, _) = parse_instructions(&input, 0).unwrap();
    assert_eq!(instrs.len(), 3);
    assert!(matches!(instrs[0], Instr::I32Const(1)));
    assert!(matches!(instrs[1], Instr::I32Const(2)));
    assert!(matches!(instrs[2], Instr::I32Add));
}

#[test]
fn test_parse_instructions_local_get() {
    // 0x20 (local.get), 0x00 (local index 0), 0x0B (end)
    let input = [0x20, 0x00, 0x0B];
    let (instrs, _) = parse_instructions(&input, 0).unwrap();
    assert_eq!(instrs.len(), 1);
    assert!(matches!(instrs[0], Instr::LocalGet(0)));
}

#[test]
fn test_parse_instructions_nested_block() {
    // block (empty) { i32.const 7 } end; end
    let input = [0x02, 0x40, 0x41, 0x07, 0x0B, 0x0B];
    let (instrs, _) = parse_instructions(&input, 0).unwrap();
    assert_eq!(instrs.len(), 1);
    match &instrs[0] {
        Instr::Block(_, body) => {
            assert_eq!(body.len(), 1);
            assert!(matches!(body[0], Instr::I32Const(7)));
        }
        other => panic!("expected a block, got {:?}", other),
    }
}

#[test]
fn test_parse_instructions_if_without_else() {
    // if (empty) { nop } end; end
    let input = [0x04, 0x40, 0x01, 0x0B, 0x0B];
    let (instrs, _) = parse_instructions(&input, 0).unwrap();
    match &instrs[0] {
        Instr::If(_, then_body, else_body) => {
            assert_eq!(then_body.len(), 1);
            assert_eq!(else_body.len(), 0);
        }
        other => panic!("expected an if, got {:?}", other),
    }
}

#[test]
fn test_parse_instructions_if_with_else() {
    // if (empty) { br 2 } else { br 1 } end; end
    let input = [0x04, 0x40, 0x0C, 0x02, 0x05, 0x0C, 0x01, 0x0B, 0x0B];
    let (instrs, _) = parse_instructions(&input, 0).unwrap();
    match &instrs[0] {
        Instr::If(_, then_body, else_body) => {
            assert!(matches!(then_body[0], Instr::Br(2)));
            assert!(matches!(else_body[0], Instr::Br(1)));
        }
        other => panic!("expected an if, got {:?}", other),
    }
}

#[test]
fn test_parse_instructions_unknown_opcode() {
    let input = [0xFE, 0x0B];
    let err = parse_instructions(&input, 0).unwrap_err();
    assert_eq!(err.kind, BinaryError::InvalidInstruction);
}

#[test]
fn test_parse_locals() {
    // 0x02 (count = 2), 0x7F (i32)
    let input = [0x02, 0x7F];
    let (locals, _) = parse_locals(&input, 0).unwrap();
    assert_eq!(locals.len(), 2);
    assert_eq!(locals[0], ValType::I32);
    assert_eq!(locals[1], ValType::I32);
}

#[test]
fn test_parse_code_empty_function() {
    // size: 0x02 (2 bytes)
    // locals: 0x00 (no locals)
    // body: 0x0B (end)
    let input = [0x02, 0x00, 0x0B];
    let (code, _) = parse_code(&input, 0).unwrap();
    assert_eq!(code.locals.len(), 0);
    assert_eq!(code.body.instrs.len(), 0);
}

#[test]
fn test_parse_code_with_locals() {
    // size: 0x04 (4 bytes)
    // locals: 0x01 (1 group), 0x02 (count = 2), 0x7F (i32)
    // body: 0x0B (end)
    let input = [0x04, 0x01, 0x02, 0x7F, 0x0B];
    let (code, _) = parse_code(&input, 0).unwrap();
    assert_eq!(code.locals.len(), 2);
    assert_eq!(code.locals[0], ValType::I32);
    assert_eq!(code.locals[1], ValType::I32);
}

#[test]
fn test_parse_code_with_instructions() {
    // size: 0x04 (4 bytes)
    // locals: 0x00 (no locals)
    // body: 0x41 0x2A (i32.const 42), 0x0B (end)
    let input = [0x04, 0x00, 0x41, 0x2A, 0x0B];
    let (code, after) = parse_code(&input, 0).unwrap();
    assert_eq!(code.locals.len(), 0);
    assert_eq!(code.body.instrs.len(), 1);
    assert!(matches!(code.body.instrs[0], Instr::I32Const(42)));
    assert_eq!(after, input.len());
}

#[test]
fn test_parse_code_wrong_size() {
    // size says 3 bytes but the body ends after 2.
    let input = [0x03, 0x00, 0x0B, 0x01];
    let err = parse_code(&input, 0).unwrap_err();
    assert_eq!(err.kind, BinaryError::InvalidSectionSize);
}

#[test]
fn test_parse_code_section_empty() {
    // 0x00 (0 code entries)
    let input = [0x00];
    let (codes, _) = parse_code_section(&input, 0).unwrap();
    assert_eq!(codes.len(), 0);
}

#[test]
fn test_parse_code_section_single() {
    // 0x01 (1 code entry)
    // size: 0x02, locals: 0x00, body: 0x0B
    let input = [0x01, 0x02, 0x00, 0x0B];
    let (codes, _) = parse_code_section(&input, 0).unwrap();
    assert_eq!(codes.len(), 1);
    assert_eq!(codes[0].locals.len(), 0);
}
