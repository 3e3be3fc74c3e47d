use vo_lang::vo_sig::{parse_extern_func, parse_func_signature, VoType};

#[test]
fn test_parse_type() {
    assert!(matches!(VoType::parse("int"), Some(VoType::Int)));
    assert!(matches!(VoType::parse("string"), Some(VoType::String)));
    assert!(matches!(VoType::parse("[]byte"), Some(VoType::Slice(_))));
    assert!(matches!(VoType::parse("*int"), Some(VoType::Pointer(_))));
}

#[test]
fn test_parse_extern_func() {
    let source = r#"
package fmt

func Println(s string) int

func helper() {
    // has body
}
"#;
    let sig = parse_extern_func(source, "Println").unwrap();
    assert_eq!(sig.name, "Println");
    assert_eq!(sig.params.len(), 1);
    assert!(matches!(sig.params[0].ty, VoType::String));
    assert_eq!(sig.results.len(), 1);
    assert!(matches!(sig.results[0], VoType::Int));
}

#[test]
fn test_parse_multi_return() {
    let source = "func Divmod(a, b int) (int, int)";
    let sig = parse_func_signature(source, "Divmod").unwrap();
    assert_eq!(sig.params.len(), 2);
    assert_eq!(sig.results.len(), 2);
}

#[test]
fn function_with_body_is_not_extern() {
    let source = "package p\n\nfunc helper() {\n}\n";
    assert!(parse_extern_func(source, "helper").is_none());
    assert!(parse_extern_func(source, "missing").is_none());
}

#[test]
fn expected_rust_types_of_parsed_types() {
    assert_eq!(VoType::parse("int").unwrap().expected_rust_type(), "i64");
    assert_eq!(VoType::parse("string").unwrap().expected_rust_type(), "&str");
    assert_eq!(VoType::parse("[]byte").unwrap().expected_rust_type(), "GcRef");
    assert_eq!(VoType::parse("byte").unwrap().expected_rust_type(), "u8");
}
