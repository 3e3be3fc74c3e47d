use vo_lang::vo_types::{
    rust_type_to_vo, ChanDir, RustFnArg, RustFnDecl, RustTypeShape, TypeAliases, VoFuncSig, VoStructDef,
    VoStructField, VoType,
};
use vo_lang::vo_types::{type_expr_to_vo_type, TypeExprShape};

fn field(name: &str, ty: VoType) -> VoStructField {
    VoStructField { name: name.to_string(), ty }
}

#[test]
fn slot_counts_of_basic_types() {
    let al = TypeAliases::new();
    assert_eq!(VoType::Int.slot_count(&al), 1);
    assert_eq!(VoType::Any.slot_count(&al), 2);
    assert_eq!(VoType::Named("error".to_string()).slot_count(&al), 2);
    assert_eq!(VoType::Named("Unknown".to_string()).slot_count(&al), 1);
    assert_eq!(VoType::Array(3, Box::new(VoType::Any)).slot_count(&al), 6);
    assert_eq!(VoType::Struct(vec![VoType::Int, VoType::Any, VoType::String]).slot_count(&al), 4);
    assert_eq!(VoType::Array(65536 + 2, Box::new(VoType::Int)).slot_count(&al), 2);
}

#[test]
fn slot_counts_through_aliases() {
    let mut al = TypeAliases::new();
    al.insert("Pair".to_string(), VoType::Struct(vec![VoType::Int, VoType::Int]));
    al.insert("P2".to_string(), VoType::Named("Pair".to_string()));
    assert_eq!(VoType::Named("P2".to_string()).slot_count(&al), 2);
    al.insert("Pair".to_string(), VoType::Any);
    assert_eq!(VoType::Named("P2".to_string()).slot_count(&al), 2);
    assert!(matches!(al.get(&"Pair".to_string()), Some(VoType::Any)));
    assert!(al.get(&"Nope".to_string()).is_none());
}

#[test]
fn struct_offsets_and_total() {
    let al = TypeAliases::new();
    let def = VoStructDef {
        name: "S".to_string(),
        fields: vec![field("a", VoType::Int), field("b", VoType::Any), field("c", VoType::Bool)],
    };
    assert_eq!(def.field_offsets(&al), vec![0, 1, 3]);
    assert_eq!(def.total_slots(&al), 4);
    let empty = VoStructDef { name: "E".to_string(), fields: vec![] };
    assert_eq!(empty.field_offsets(&al), Vec::<u16>::new());
    assert_eq!(empty.total_slots(&al), 0);
}

#[test]
fn rust_types_of_vo_types() {
    assert_eq!(VoType::Int.expected_rust_type(), "i64");
    assert_eq!(VoType::Uint8.expected_rust_type(), "u8");
    assert_eq!(VoType::Slice(Box::new(VoType::Uint8)).expected_rust_type(), "&[u8]");
    assert_eq!(VoType::Slice(Box::new(VoType::Int)).expected_rust_type(), "GcRef");
    assert_eq!(VoType::Variadic(Box::new(VoType::Any)).expected_rust_type(), "variadic");
    assert_eq!(VoType::Struct(vec![]).expected_rust_type(), "struct");
}

#[test]
fn type_text() {
    assert_eq!(VoType::MapOf(Box::new(VoType::String), Box::new(VoType::Int)).type_string(), "map[string]int");
    assert_eq!(VoType::Array(4, Box::new(VoType::Uint8)).type_string(), "[4]uint8");
    assert_eq!(VoType::Chan(ChanDir::Recv, Box::new(VoType::Bool)).type_string(), "<-chan bool");
    assert_eq!(VoType::Chan(ChanDir::Send, Box::new(VoType::Bool)).type_string(), "chan<- bool");
    assert_eq!(
        VoType::Func(vec![VoType::Int, VoType::String], vec![VoType::Bool]).type_string(),
        "func(int, string) bool"
    );
    assert_eq!(
        VoType::Func(vec![], vec![VoType::Int, VoType::Named("error".to_string())]).type_string(),
        "func() (int, error)"
    );
    assert_eq!(VoType::Func(vec![], vec![]).type_string(), "func()");
    assert_eq!(VoType::Struct(vec![VoType::Int, VoType::Int]).type_string(), "struct{2 fields}");
    assert_eq!(VoType::Variadic(Box::new(VoType::Any)).type_string(), "...any");
}

#[test]
fn signatures_from_rust_functions() {
    assert!(matches!(rust_type_to_vo(&RustTypeShape::Path("usize".to_string())), VoType::Uint64));
    assert!(matches!(rust_type_to_vo(&RustTypeShape::Ref(Some("str".to_string()))), VoType::String));
    assert!(matches!(rust_type_to_vo(&RustTypeShape::Ref(None)), VoType::Any));
    let decl = RustFnDecl {
        name: "divmod".to_string(),
        inputs: vec![
            RustFnArg::Receiver,
            RustFnArg::Typed(Some("a".to_string()), RustTypeShape::Path("i64".to_string())),
            RustFnArg::Typed(None, RustTypeShape::Other),
        ],
        output: Some(RustTypeShape::Tuple(vec![
            RustTypeShape::Path("i64".to_string()),
            RustTypeShape::Path("bool".to_string()),
        ])),
    };
    let sig = VoFuncSig::from_rust_fn(&decl);
    assert_eq!(sig.name, "divmod");
    assert_eq!(sig.params.len(), 2);
    assert_eq!(sig.params[0].name, "a");
    assert!(matches!(sig.params[0].ty, VoType::Int64));
    assert_eq!(sig.params[1].name, "");
    assert!(matches!(sig.params[1].ty, VoType::Any));
    assert_eq!(sig.results.len(), 2);
    assert!(matches!(sig.results[1], VoType::Bool));
}

fn ident(n: &str) -> TypeExprShape {
    TypeExprShape::Ident(n.to_string())
}

#[test]
fn type_expressions_become_vo_types() {
    assert!(matches!(type_expr_to_vo_type(&ident("rune")), VoType::Int32));
    assert!(matches!(type_expr_to_vo_type(&ident("byte")), VoType::Uint8));
    assert!(matches!(type_expr_to_vo_type(&ident("error")), VoType::Any));
    assert!(matches!(type_expr_to_vo_type(&TypeExprShape::Interface), VoType::Any));
    assert_eq!(type_expr_to_vo_type(&ident("Foo")).type_string(), "Foo");
    let sel = TypeExprShape::Selector("pkg".to_string(), "T".to_string());
    assert_eq!(type_expr_to_vo_type(&sel).type_string(), "pkg.T");
    let arr = |lit: Option<&str>| TypeExprShape::Array(lit.map(|s| s.to_string()), Box::new(ident("byte")));
    assert_eq!(type_expr_to_vo_type(&arr(Some("4"))).type_string(), "[4]uint8");
    assert_eq!(type_expr_to_vo_type(&arr(Some("+7"))).type_string(), "[7]uint8");
    assert_eq!(type_expr_to_vo_type(&arr(Some("0x10"))).type_string(), "[0]uint8");
    assert_eq!(type_expr_to_vo_type(&arr(None)).type_string(), "[0]uint8");
    let m = TypeExprShape::MapOf(Box::new(ident("string")), Box::new(TypeExprShape::Pointer(Box::new(ident("int")))));
    assert_eq!(type_expr_to_vo_type(&m).type_string(), "map[string]*int");
    let c = TypeExprShape::Chan(ChanDir::Recv, Box::new(TypeExprShape::Slice(Box::new(ident("bool")))));
    assert_eq!(type_expr_to_vo_type(&c).type_string(), "<-chan []bool");
    let f = TypeExprShape::Func(vec![(2, ident("int")), (0, ident("string"))], vec![ident("bool")]);
    assert_eq!(type_expr_to_vo_type(&f).type_string(), "func(int, int, string) bool");
    let st = TypeExprShape::Struct(vec![(3, ident("int")), (0, ident("Base"))]);
    match type_expr_to_vo_type(&st) {
        VoType::Struct(fs) => {
            assert_eq!(fs.len(), 4);
            assert!(matches!(fs[2], VoType::Int));
            assert_eq!(fs[3].type_string(), "Base");
        }
        _ => panic!("not a struct"),
    }
}
