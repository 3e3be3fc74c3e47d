use vo_lang::bytecode::{Constant, FieldLayout, FunctionDef, Module};
use vo_lang::codegen_error::CodegenError;
use vo_lang::instruction::{Instruction, Opcode};
use vo_lang::jit::{can_jit, CompiledFunction, JitCache};
use vo_lang::output::{format_error, format_panic, format_tag, format_with_loc, ErrorKind, SourceLoc, TAG_OK};
use vo_lang::strbuf::{decimal_i64, decimal_u64};
use vo_lang::wasm::{WasmCompiler, WasmFormat};

#[test]
fn tags() {
    assert_eq!(TAG_OK, "[VO:OK]");
    assert_eq!(format_panic("boom"), "[VO:PANIC:boom]");
    assert_eq!(format_error("bad"), "[VO:ERROR:bad]");
    let loc = SourceLoc { file: "main.vo".to_string(), line: 3, column: 14 };
    assert_eq!(format_tag(ErrorKind::Check, Some(&loc), "undefined: x"), "[VO:CHECK:main.vo:3:14: undefined: x]");
    assert_eq!(format_tag(ErrorKind::Io, None, "no file"), "[VO:IO:no file]");
    assert_eq!(format_tag(ErrorKind::Codegen, None, ""), "[VO:CODEGEN:]");
    assert_eq!(ErrorKind::Parse.tag_prefix(), "[VO:PARSE:");
    assert_eq!(ErrorKind::Panic.tag_prefix(), "[VO:PANIC:");
    assert_eq!(format_with_loc(Some(&loc), "m"), "main.vo:3:14: m");
    assert_eq!(format_with_loc(None, "m"), "m");
}

#[test]
fn codegen_messages() {
    assert_eq!(CodegenError::TypeNotFound("T".to_string()).message(), "type not found: T");
    assert_eq!(CodegenError::FunctionNotFound("f".to_string()).message(), "function not found: f");
    assert_eq!(CodegenError::VariableNotFound("v".to_string()).message(), "variable not found: v");
    assert_eq!(CodegenError::InvalidLHS.message(), "invalid left-hand side in assignment");
    assert_eq!(CodegenError::UnsupportedExpr("e".to_string()).message(), "unsupported expression: e");
    assert_eq!(CodegenError::UnsupportedStmt("s".to_string()).message(), "unsupported statement: s");
    assert_eq!(CodegenError::Internal("i".to_string()).message(), "internal error: i");
}

#[test]
fn wasm_formats() {
    assert_eq!(WasmCompiler::standalone().format(), WasmFormat::Standalone);
    assert_eq!(WasmCompiler::wasi().format(), WasmFormat::Wasi);
    assert_eq!(WasmCompiler::new(WasmFormat::Wasi).format(), WasmFormat::Wasi);
}

#[test]
fn field_layout_codes() {
    assert_eq!(FieldLayout::new(0, 1, false).size_code(), 0);
    assert_eq!(FieldLayout::new(0, 2, false).size_code(), 1);
    assert_eq!(FieldLayout::new(0, 4, false).size_code(), 2);
    assert_eq!(FieldLayout::new(0, 8, false).size_code(), 3);
    assert_eq!(FieldLayout::new(0, 3, false).size_code(), 3);
    assert_eq!(FieldLayout::new(16, 4, true).flags(), 0b110);
    assert_eq!(FieldLayout::new(16, 1, false).flags(), 0);
    let f = FieldLayout::new(12, 2, true);
    assert_eq!(f.byte_offset, 12);
}

#[test]
fn function_defs() {
    let f = FunctionDef::new("main");
    assert_eq!(f.name, "main");
    assert_eq!(f.param_count, 0);
    assert_eq!(f.local_slots, 0);
    assert!(f.code.is_empty());
}

#[test]
fn jit_cache_and_eligibility() {
    let mut cache = JitCache::new();
    assert!(!cache.contains(3));
    assert!(cache.get(3).is_none());
    let cf = CompiledFunction { code_addr: 0x1000, code_size: 64, param_slots: 2, ret_slots: 1 };
    cache.insert(3, cf);
    assert!(cache.contains(3));
    assert_eq!(cache.get(3).unwrap().code_size, 64);
    let mut f = FunctionDef::new("f");
    f.code.push(Instruction::new(Opcode::LoadInt, 0, 1, 0));
    assert!(can_jit(&f));
    f.code.push(Instruction::new(Opcode::DeferPush, 0, 0, 0));
    assert!(!can_jit(&f));
}

#[test]
fn decimal_text() {
    assert_eq!(decimal_u64(0), "0");
    assert_eq!(decimal_u64(1234567890), "1234567890");
    assert_eq!(decimal_u64(u64::MAX), "18446744073709551615");
    assert_eq!(decimal_i64(-42), "-42");
    assert_eq!(decimal_i64(i64::MIN), "-9223372036854775808");
}

#[test]
fn module_tables() {
    let mut m = Module::new("main");
    assert_eq!(m.name, "main");
    assert_eq!(m.add_constant(Constant::Int(5)), 0);
    assert_eq!(m.add_constant(Constant::String("s".to_string())), 1);
    assert_eq!(m.constants[0].as_i64(), 5);
    assert!(m.constants[0].as_bool());
    assert_eq!(m.constants[1].as_str(), "s");
    assert_eq!(Constant::Bool(true).as_i64(), 1);
    assert!(!Constant::Int(0).as_bool());
    assert_eq!(m.add_function(FunctionDef::new("f")), 0);
    assert_eq!(m.add_function(FunctionDef::new("g")), 1);
    assert_eq!(m.find_function("g"), Some(1));
    assert_eq!(m.find_function("h"), None);
    assert_eq!(m.add_native("print", 1, 0), 0);
    assert_eq!(m.get_native(0).unwrap().param_slots, 1);
    assert_eq!(m.find_native("print"), Some(0));
    assert!(m.get_function(2).is_none());
    assert_eq!(m.get_function(1).unwrap().name, "g");
}
