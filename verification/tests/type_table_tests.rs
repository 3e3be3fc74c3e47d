use vo_lang::bytecode::FieldLayout;
use vo_lang::type_table::{TypeMeta, TypeTable};
use vo_lang::value::{SlotType, ValueKind};

#[test]
fn builtin_types_sit_at_their_kind() {
    let t = TypeTable::new();
    assert_eq!(t.len(), 24);
    assert!(!t.is_empty());
    assert_eq!(t.get_by_name("nil"), Some(0));
    assert_eq!(t.get_by_name("int"), Some(2));
    assert_eq!(t.get_by_name("string"), Some(15));
    assert_eq!(t.get_by_name("map"), Some(18));
    assert_eq!(t.get_by_name("interface"), Some(23));
    assert_eq!(t.get_by_name("widget"), None);
    let iface = t.get(23).unwrap();
    assert_eq!(iface.value_kind, ValueKind::Interface);
    assert_eq!(iface.size_slots, 2);
    assert_eq!(iface.size_bytes, 16);
    assert_eq!(iface.slot_types, vec![SlotType::Interface0, SlotType::Interface1]);
    assert!(iface.is_interface());
    let s = t.get_unchecked(21);
    assert!(s.is_struct());
    assert_eq!(s.size_slots, 0);
    assert!(t.get(2).unwrap().is_primitive());
    assert!(!t.get(15).unwrap().is_primitive());
    assert!(t.get(24).is_none());
}

#[test]
fn registered_structs_follow() {
    let mut t = TypeTable::new();
    let id = t.register_struct(7, "Point", 2, vec![SlotType::Value, SlotType::Value]);
    assert_eq!(id, 24);
    assert_eq!(t.len(), 25);
    assert_eq!(t.get_by_name("Point"), Some(24));
    let p = t.get(24).unwrap();
    assert_eq!(p.type_id, 7);
    assert_eq!(p.size_bytes, 16);
    assert_eq!(p.name, "Point");
    let id2 = t.register_struct(8, "Point", 1, vec![SlotType::GcRef]);
    assert_eq!(t.get_by_name("Point"), Some(id2));
}

#[test]
fn metadata_constructors() {
    let m = TypeMeta::primitive(ValueKind::Bool, "bool");
    assert_eq!(m.size_slots, 1);
    assert_eq!(m.slot_types, vec![SlotType::Value]);
    assert!(m.get_field_layout(0).is_none());
    let mut st = TypeMeta::struct_(3, "S", 1, vec![SlotType::Value]);
    st.field_layouts.push(FieldLayout::new(0, 8, true));
    assert_eq!(st.get_field_layout(0).unwrap().size, 8);
    assert_eq!(TypeMeta::nil().size_slots, 0);
    assert_eq!(TypeMeta::object(ValueKind::Pointer, "p", 1, vec![SlotType::GcRef]).value_kind, ValueKind::Pointer);
}
