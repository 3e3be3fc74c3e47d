use vo_lang::bytecode::FunctionDef;
use vo_lang::exec::{
    collect_pending_defers, exec_array_new, exec_call, exec_call_closure, exec_defer_push, exec_err_defer_push, exec_panic,
    exec_recover, exec_return, pop_frame, write_return_values,
};
use vo_lang::fiber::{CallFrame, DeferEntry, DeferState, ExecResult, Fiber};
use vo_lang::heap::{self, Gc};
use vo_lang::instruction::{Instruction, Opcode};
use vo_lang::value::{ValueKind, ValueMeta};

fn func(local_slots: u16) -> FunctionDef {
    let mut f = FunctionDef::new("f");
    f.local_slots = local_slots;
    f
}

fn frame(func_id: u32, bp: usize, ret_reg: u16, ret_count: u16) -> CallFrame {
    CallFrame { func_id, pc: 0, bp, ret_reg, ret_count }
}

fn defer(depth: usize, func_id: u32, errdefer: bool) -> DeferEntry {
    DeferEntry { frame_depth: depth, func_id, closure: 0, args: 0, arg_slots: 0, is_closure: false, is_errdefer: errdefer }
}

#[test]
fn call_pushes_frame_and_copies_arguments() {
    let functions = vec![func(4), func(3)];
    let mut stack = vec![7, 8, 9, 10];
    let mut frames = vec![frame(0, 0, 0, 0)];
    // call function 1 with 2 argument slots from register 1, 1 result slot
    let inst = Instruction::with_flags(Opcode::Call, 0, 1, 1, (2 << 8) | 1);
    let r = exec_call(&mut stack, &mut frames, &inst, &functions);
    assert_eq!(r, ExecResult::Return);
    assert_eq!(frames.len(), 2);
    assert_eq!(frames[1], frame(1, 4, 1, 1));
    assert_eq!(stack, vec![7, 8, 9, 10, 8, 9, 0]);
}

#[test]
fn call_grows_stack_for_results() {
    let functions = vec![func(1)];
    let mut stack = vec![1];
    let mut frames = vec![frame(0, 0, 0, 0)];
    let inst = Instruction::new(Opcode::Call, 0, 0, 3);
    exec_call(&mut stack, &mut frames, &inst, &functions);
    assert_eq!(frames[1].bp, 3);
    assert_eq!(stack, vec![1, 0, 0, 0]);
}

#[test]
fn return_without_defers_writes_results_to_caller() {
    let functions = vec![func(4), func(3)];
    let mut stack = vec![7, 8, 9, 10, 11, 12, 13];
    let mut frames = vec![frame(0, 0, 0, 0), frame(1, 4, 1, 2)];
    let mut defer_stack: Vec<DeferEntry> = Vec::new();
    let mut state: Option<DeferState> = None;
    let ret = Instruction::new(Opcode::Return, 1, 2, 0);
    let r = exec_return(&mut stack, &mut frames, &mut defer_stack, &mut state, &ret, &functions[1], &functions, &Gc::new(), false);
    assert_eq!(r, ExecResult::Return);
    assert_eq!(frames.len(), 1);
    assert_eq!(stack, vec![7, 12, 13, 10]);
}

#[test]
fn return_from_last_frame_is_done() {
    let functions = vec![func(2)];
    let mut stack = vec![5, 6];
    let mut frames = vec![frame(0, 0, 0, 2)];
    let mut defer_stack: Vec<DeferEntry> = Vec::new();
    let mut state: Option<DeferState> = None;
    let ret = Instruction::new(Opcode::Return, 0, 2, 0);
    let r = exec_return(&mut stack, &mut frames, &mut defer_stack, &mut state, &ret, &functions[0], &functions, &Gc::new(), false);
    assert_eq!(r, ExecResult::Done);
    assert!(frames.is_empty());
    assert_eq!(stack, vec![5, 6]);
}

#[test]
fn return_runs_defers_newest_first_then_hands_back() {
    let functions = vec![func(4), func(2), func(1), func(1)];
    let mut stack = vec![0, 0, 0, 0, 42, 0];
    let mut frames = vec![frame(0, 0, 0, 0), frame(1, 4, 2, 1)];
    let mut defer_stack = vec![defer(1, 9, false), defer(2, 2, false), defer(2, 3, false), defer(2, 1, true)];
    let mut state: Option<DeferState> = None;
    let ret = Instruction::new(Opcode::Return, 0, 1, 0);
    let gc = Gc::new();
    let r = exec_return(&mut stack, &mut frames, &mut defer_stack, &mut state, &ret, &functions[1], &functions, &gc, false);
    assert_eq!(r, ExecResult::Return);
    assert_eq!(defer_stack, vec![defer(1, 9, false)]);
    // the newest non-errdefer (function 3) runs first, on top of the caller's stack
    assert_eq!(frames.len(), 2);
    assert_eq!(frames[1], frame(3, 4, 0, 0));
    assert_eq!(state.as_ref().unwrap().pending, vec![defer(2, 2, false)]);
    assert_eq!(state.as_ref().unwrap().ret_vals, vec![42]);
    // the deferred call returns: the next one starts
    let r = exec_return(&mut stack, &mut frames, &mut defer_stack, &mut state, &ret, &functions[3], &functions, &gc, false);
    assert_eq!(r, ExecResult::Return);
    assert_eq!(frames[1], frame(2, 4, 0, 0));
    // the last deferred call returns: the results go to the caller
    let r = exec_return(&mut stack, &mut frames, &mut defer_stack, &mut state, &ret, &functions[2], &functions, &gc, false);
    assert_eq!(r, ExecResult::Return);
    assert!(state.is_none());
    assert_eq!(frames.len(), 1);
    assert_eq!(stack, vec![0, 0, 42, 0]);
}

#[test]
fn pending_defers_keep_errdefers_only_on_error() {
    let mut ds = vec![defer(1, 0, false), defer(2, 1, false), defer(2, 2, true)];
    let p = collect_pending_defers(&mut ds, 2, false);
    assert_eq!(p, vec![defer(2, 1, false)]);
    assert_eq!(ds, vec![defer(1, 0, false)]);
    let mut ds = vec![defer(2, 1, false), defer(2, 2, true)];
    let p = collect_pending_defers(&mut ds, 2, true);
    assert_eq!(p, vec![defer(2, 2, true), defer(2, 1, false)]);
    assert!(ds.is_empty());
}

#[test]
fn pop_and_write_back() {
    let mut stack = vec![1, 2, 3, 4, 5];
    let mut frames = vec![frame(0, 0, 0, 0), frame(1, 3, 0, 0)];
    assert_eq!(pop_frame(&mut stack, &mut frames), Some(frame(1, 3, 0, 0)));
    assert_eq!(stack, vec![1, 2, 3]);
    let r = write_return_values(&mut stack, &frames, &[9, 8, 7], 2, 2);
    assert_eq!(r, ExecResult::Return);
    assert_eq!(stack, vec![1, 2, 9, 8]);
    let mut empty: Vec<CallFrame> = Vec::new();
    assert_eq!(pop_frame(&mut stack, &mut empty), None);
    let r = write_return_values(&mut stack, &[], &[9, 8, 7], 0, 5);
    assert_eq!(r, ExecResult::Done);
    assert_eq!(stack, vec![9, 8, 7]);
}

#[test]
fn defer_push_copies_arguments_to_heap() {
    let mut fiber = Fiber::new();
    fiber.stack = vec![0, 11, 22, 33];
    fiber.frames = vec![frame(0, 0, 0, 0)];
    let mut gc = Gc::new();
    // function id 5 | (1 << 16) from flags 0b10, arguments in registers 1..3
    let inst = Instruction::with_flags(Opcode::DeferPush, 0b10, 5, 1, 2);
    exec_defer_push(&mut fiber, &inst, &mut gc);
    let e = fiber.defer_stack[0];
    assert_eq!(e.func_id, 5 | (1 << 16));
    assert_eq!(e.args, 1);
    assert_eq!(e.arg_slots, 2);
    assert!(!e.is_closure && !e.is_errdefer);
    assert_eq!(gc.read_slot(1, 0), 11);
    assert_eq!(gc.read_slot(1, 1), 22);
    let closure = Instruction::with_flags(Opcode::ErrDeferPush, 1, 3, 0, 0);
    exec_err_defer_push(&mut fiber, &closure, &mut gc);
    let e = fiber.defer_stack[1];
    assert!(e.is_closure && e.is_errdefer);
    assert_eq!(e.closure, 33);
    assert_eq!(e.args, 0);
}

#[test]
fn panic_then_recover() {
    let mut fiber = Fiber::new();
    fiber.stack = vec![77, 0];
    fiber.frames = vec![frame(0, 0, 0, 0)];
    let r = exec_panic(&mut fiber, &Instruction::new(Opcode::Panic, 0, 0, 0));
    assert_eq!(r, ExecResult::Panic);
    assert_eq!(fiber.panic_value, Some(77));
    exec_recover(&mut fiber, &Instruction::new(Opcode::Recover, 1, 0, 0));
    assert_eq!(fiber.stack, vec![77, 77]);
    assert_eq!(fiber.panic_value, None);
    exec_recover(&mut fiber, &Instruction::new(Opcode::Recover, 1, 0, 0));
    assert_eq!(fiber.stack, vec![77, 0]);
}

#[test]
fn array_new_allocates_and_records_header() {
    let mut fiber = Fiber::new();
    let meta = ValueMeta::new(3, ValueKind::Int64);
    fiber.stack = vec![0, meta.to_raw() as u64, 4];
    fiber.frames = vec![frame(0, 0, 0, 0)];
    let mut gc = Gc::new();
    exec_array_new(&mut fiber, &Instruction::with_flags(Opcode::ArrayNew, 1, 0, 1, 2), &mut gc);
    let arr = fiber.stack[0];
    assert_eq!(arr, 1);
    assert_eq!(heap::len(&gc, arr), 4);
    assert_eq!(heap::elem_meta(&gc, arr), meta);
    assert_eq!(heap::elem_kind(&gc, arr), ValueKind::Int64);
    assert_eq!(heap::elem_meta_id(&gc, arr), 3);
    assert_eq!(heap::elem_bytes(&gc, arr), 8);
    assert_eq!(heap::get(&gc, arr, 3), 0);
    heap::set(&mut gc, arr, 3, 99);
    assert_eq!(heap::get(&gc, arr, 3), 99);
    heap::set_n(&mut gc, arr, 0, &[1, 2]);
    let mut out = [0u64; 3];
    heap::get_n(&gc, arr, 0, &mut out);
    assert_eq!(out, [1, 2, 0]);
    assert_eq!(gc.header(arr).value_kind(), ValueKind::Array);
}

#[test]
fn closure_calls() {
    let mut gc = Gc::new();
    let plain = gc.alloc_object(ValueMeta::new(0, ValueKind::Closure), 1);
    gc.write_slot(plain, 0, 1);
    let mut method_fn = func(4);
    method_fn.recv_slots = 1;
    let functions = vec![func(4), func(3), method_fn];
    let mut stack = vec![plain, 5, 6];
    let mut frames = vec![frame(0, 0, 0, 0)];
    // closure in register 0, two argument slots from register 1, one result
    let inst = Instruction::with_flags(Opcode::CallClosure, 0, 0, 1, (2 << 8) | 1);
    assert_eq!(exec_call_closure(&mut stack, &mut frames, &inst, &functions, &gc), ExecResult::Return);
    assert_eq!(stack, vec![plain, 5, 6, plain, 5, 6]);
    assert_eq!(frames[1], frame(1, 3, 1, 1));

    let method = gc.alloc_object(ValueMeta::new(0, ValueKind::Closure), 2);
    gc.write_slot(method, 0, 2);
    gc.write_slot(method, 1, 77);
    let mut stack = vec![method, 3, 5, 6];
    let mut frames = vec![frame(0, 0, 0, 0)];
    // result count read from the register before the arguments
    let inst = Instruction::with_flags(Opcode::CallClosure, 1, 0, 2, 2 << 8);
    exec_call_closure(&mut stack, &mut frames, &inst, &functions, &gc);
    assert_eq!(stack, vec![method, 3, 5, 6, 77, 5, 6, 0]);
    assert_eq!(frames[1], frame(2, 4, 2, 3));
}

#[test]
fn array_copy_range() {
    let mut gc = Gc::new();
    let a = heap::create(&mut gc, ValueMeta::new(0, ValueKind::Int), 1, 4);
    let b = heap::create(&mut gc, ValueMeta::new(0, ValueKind::Int), 1, 4);
    heap::set_n(&mut gc, a, 0, &[1, 2, 3, 4]);
    heap::copy_range(&mut gc, a, 1, b, 2, 2);
    let mut out = [0u64; 4];
    heap::get_n(&gc, b, 0, &mut out);
    assert_eq!(out, [0, 0, 2, 3]);
    heap::copy_range(&mut gc, a, 0, a, 2, 2);
    heap::get_n(&gc, a, 0, &mut out);
    assert_eq!(out, [1, 2, 1, 2]);
}

#[test]
fn array_header_decodes_both_slots() {
    let mut gc = Gc::new();
    let meta = ValueMeta::new(7, ValueKind::Struct);
    let arr = heap::create(&mut gc, meta, 3, 5);
    let h = heap::ArrayHeader::read(&gc, arr);
    assert_eq!(h.len, 5);
    assert_eq!(h.elem_meta, meta);
    assert_eq!(h.elem_bytes, 24);
    assert_eq!(gc.slot_count(arr), 2 + 15);
}
