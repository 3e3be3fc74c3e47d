use vo_lang::bytecode::FunctionDef;
use vo_lang::fiber::{CallFrame, DeferEntry, DeferState, Fiber};
use vo_lang::gc_scan::{
    scan_array, scan_defer_entry, scan_fiber, scan_globals, scan_roots, scan_slots_by_types, scan_struct, GlobalDef,
    Module, StructMeta,
};
use vo_lang::heap::{self, Gc};
use vo_lang::interface::pack_slot0;
use vo_lang::value::{SlotType, ValueKind, ValueMeta};

#[test]
fn slots_by_types() {
    let mut gc = Gc::new();
    let iface_ref = pack_slot0(0, ValueMeta::new(0, ValueKind::Pointer));
    let iface_int = pack_slot0(0, ValueMeta::new(0, ValueKind::Int));
    let slots = [5, 0, 7, iface_ref, 9, iface_int, 11];
    let types = [
        SlotType::GcRef,
        SlotType::GcRef,
        SlotType::Value,
        SlotType::Interface0,
        SlotType::Interface1,
        SlotType::Interface0,
        SlotType::Interface1,
    ];
    scan_slots_by_types(&mut gc, &slots, 0, slots.len(), &types);
    assert_eq!(gc.gray_list(), vec![5, 9]);
    let mut gc2 = Gc::new();
    scan_slots_by_types(&mut gc2, &slots, 3, 4, &[SlotType::Interface0]);
    assert_eq!(gc2.gray_list(), Vec::<u64>::new());
}

#[test]
fn structs_and_arrays() {
    let mut gc = Gc::new();
    let s = gc.alloc_object(ValueMeta::new(0, ValueKind::Struct), 3);
    gc.write_slot(s, 0, 42);
    gc.write_slot(s, 2, 43);
    let metas = vec![StructMeta { slot_types: vec![SlotType::GcRef, SlotType::Value, SlotType::GcRef] }];
    scan_struct(&mut gc, s, 0, &metas);
    assert_eq!(gc.gray_list(), vec![42, 43]);
    scan_struct(&mut gc, s, 5, &metas);
    assert_eq!(gc.gray_list(), vec![42, 43]);
    let arr = heap::create(&mut gc, ValueMeta::new(0, ValueKind::Pointer), 1, 3);
    heap::set(&mut gc, arr, 0, 8);
    heap::set(&mut gc, arr, 2, 9);
    scan_array(&mut gc, arr);
    assert_eq!(gc.gray_list(), vec![42, 43, 8, 9]);
    let ints = heap::create(&mut gc, ValueMeta::new(0, ValueKind::Int), 1, 2);
    heap::set(&mut gc, ints, 0, 77);
    scan_array(&mut gc, ints);
    assert_eq!(gc.gray_list(), vec![42, 43, 8, 9]);
}

#[test]
fn roots() {
    let mut gc = Gc::new();
    let entry = DeferEntry { frame_depth: 1, func_id: 0, closure: 3, args: 4, arg_slots: 1, is_closure: true, is_errdefer: false };
    scan_defer_entry(&mut gc, &entry);
    assert_eq!(gc.gray_list(), vec![3, 4]);

    let mut f = FunctionDef::new("f");
    f.slot_types = vec![SlotType::GcRef, SlotType::Value];
    let module = Module {
        functions: vec![f],
        globals: vec![
            GlobalDef { slots: 1, slot_types: vec![SlotType::GcRef] },
            GlobalDef { slots: 2, slot_types: vec![SlotType::Value, SlotType::GcRef] },
        ],
    };
    let globals = vec![21, 1, 22];
    let mut g = Gc::new();
    scan_globals(&mut g, &globals, &module.globals);
    assert_eq!(g.gray_list(), vec![21, 22]);

    let mut fiber = Fiber::new();
    fiber.stack = vec![31, 99, 32, 98];
    fiber.frames = vec![CallFrame { func_id: 0, pc: 0, bp: 0, ret_reg: 0, ret_count: 0 }, CallFrame { func_id: 0, pc: 0, bp: 2, ret_reg: 0, ret_count: 0 }];
    fiber.defer_stack = vec![entry];
    fiber.defer_state = Some(DeferState {
        pending: vec![],
        ret_vals: vec![33],
        ret_slot_types: vec![SlotType::GcRef],
        caller_ret_reg: 0,
        caller_ret_count: 1,
        is_error_return: false,
        heap_gcrefs: vec![],
        value_slots_per_ref: 0,
    });
    fiber.panic_value = Some(34);
    let mut g = Gc::new();
    scan_fiber(&mut g, &fiber, &module.functions);
    assert_eq!(g.gray_list(), vec![31, 32, 3, 4, 33, 34]);

    let mut g = Gc::new();
    scan_roots(&mut g, &globals, &Some(module), &[fiber], &[]);
    assert_eq!(g.gray_list(), vec![21, 22, 31, 32, 3, 4, 33, 34]);
    let mut g = Gc::new();
    scan_roots(&mut g, &globals, &None, &[], &[]);
    assert_eq!(g.gray_list(), Vec::<u64>::new());
}
