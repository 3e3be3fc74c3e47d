use vo_lang::value::ValueKind;
use vo_lang::value_fmt::{clear_output, format_value, take_output, NoSource, OutputBuffer, SourceProvider};

#[test]
fn values_by_kind() {
    assert_eq!(format_value(0, ValueKind::Void, ""), "nil");
    assert_eq!(format_value(1, ValueKind::Bool, ""), "true");
    assert_eq!(format_value(0, ValueKind::Bool, ""), "false");
    assert_eq!(format_value((-5i64) as u64, ValueKind::Int, ""), "-5");
    assert_eq!(format_value(0xff, ValueKind::Int8, ""), "-1");
    assert_eq!(format_value(0x1_0005, ValueKind::Int16, ""), "5");
    assert_eq!(format_value(0xffff_ffff, ValueKind::Int32, ""), "-1");
    assert_eq!(format_value(u64::MAX, ValueKind::Uint64, ""), "18446744073709551615");
    assert_eq!(format_value(0x1ff, ValueKind::Uint8, ""), "255");
    assert_eq!(format_value(0x1_0000, ValueKind::Uint16, ""), "0");
    assert_eq!(format_value(0x1_0000_0007, ValueKind::Uint32, ""), "7");
    assert_eq!(format_value(0, ValueKind::String, "ignored"), "\"\"");
    assert_eq!(format_value(8, ValueKind::String, "hi"), "\"hi\"");
    assert_eq!(format_value(8, ValueKind::Slice, ""), "[...]");
    assert_eq!(format_value(8, ValueKind::Array, ""), "[...]");
    assert_eq!(format_value(8, ValueKind::MapKind, ""), "map[...]");
    assert_eq!(format_value(8, ValueKind::Struct, ""), "{...}");
    assert_eq!(format_value(0xbeef, ValueKind::Pointer, ""), "0xbeef");
    assert_eq!(format_value(8, ValueKind::Interface, ""), "<interface>");
    assert_eq!(format_value(8, ValueKind::Channel, ""), "<chan>");
    assert_eq!(format_value(8, ValueKind::Closure, ""), "<func>");
    assert_eq!(format_value(8, ValueKind::FuncPtr, ""), "<func>");
}

#[test]
fn output_buffer() {
    let mut out = OutputBuffer::new();
    vo_lang::value_fmt::write(&mut out, "a");
    vo_lang::value_fmt::writeln(&mut out, "b");
    vo_lang::value_fmt::write(&mut out, "c");
    assert_eq!(take_output(&mut out), "ab\nc");
    assert_eq!(take_output(&mut out), "");
    vo_lang::value_fmt::write(&mut out, "x");
    clear_output(&mut out);
    assert_eq!(take_output(&mut out), "");
}

#[test]
fn no_source() {
    assert_eq!(NoSource.read_source("main.vo"), None);
}
