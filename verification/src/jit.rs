//! Bookkeeping of the JIT: which bytecode functions may be compiled to native code,
//! and the cache of compiled functions by function id.

use vstd::prelude::*;
use std::collections::HashMap;
use crate::bytecode::FunctionDef;
use crate::instruction::{self, Opcode};

verus! {

broadcast use vstd::std_specs::hash::group_hash_axioms;

/// A function compiled to native code.
#[derive(Debug, Clone, Copy)]
pub struct CompiledFunction {
    /// Address of the compiled code.
    pub code_addr: usize,
    /// Size of the compiled code in bytes.
    pub code_size: usize,
    /// Number of parameter slots.
    pub param_slots: u16,
    /// Number of return value slots.
    pub ret_slots: u16,
}

/// Outcome of a call into compiled code.
#[derive(Debug, Clone, Copy, PartialEq, Eq, Structural)]
pub enum JitResult {
    /// The function completed.
    Success,
    /// The function panicked.
    Panic,
}

/// Scheduler of goroutines run by compiled code; it holds no state yet.
pub struct Scheduler {}

impl Scheduler {
    /// A scheduler.
    pub fn new() -> (r: Self) {
        Scheduler {}
    }
}

/// Compiled functions by function id.
pub struct JitCache {
    functions: HashMap<u32, CompiledFunction>,
}

impl JitCache {
    /// The compiled functions by id.
    pub closed spec fn view(&self) -> Map<u32, CompiledFunction> {
        self.functions@
    }

    /// An empty cache.
    pub fn new() -> (r: Self)
        ensures
            r@ == Map::<u32, CompiledFunction>::empty(),
    {
        JitCache { functions: HashMap::new() }
    }

    /// The compiled function with id `func_id`, if any.
    pub fn get(&self, func_id: u32) -> (r: Option<&CompiledFunction>)
        ensures
            match r {
                Some(f) => self@.contains_key(func_id) && *f == self@[func_id],
                None => !self@.contains_key(func_id),
            },
    {
        self.functions.get(&func_id)
    }

    /// Record the compiled code of function `func_id`, replacing earlier code.
    pub fn insert(&mut self, func_id: u32, func: CompiledFunction)
        ensures
            final(self)@ == old(self)@.insert(func_id, func),
    {
        self.functions.insert(func_id, func);
    }

    /// Whether function `func_id` has been compiled.
    pub fn contains(&self, func_id: u32) -> (r: bool)
        ensures
            r == self@.contains_key(func_id),
    {
        self.functions.contains_key(&func_id)
    }
}

/// Instructions that need the scheduler of the interpreter: defer and recover,
/// starting goroutines, channel operations and select.
pub open spec fn needs_scheduler(op: Opcode) -> bool {
    match op {
        Opcode::DeferPush | Opcode::ErrDeferPush | Opcode::Recover | Opcode::GoCall | Opcode::ChanSend
        | Opcode::ChanRecv | Opcode::ChanClose | Opcode::SelectBegin | Opcode::SelectSend
        | Opcode::SelectRecv | Opcode::SelectExec => true,
        _ => false,
    }
}

/// Whether a function can be compiled to native code: none of its instructions
/// needs the scheduler.
pub fn can_jit(func: &FunctionDef) -> (r: bool)
    ensures
        r == forall|i: int|
            0 <= i < func.code@.len() ==> !needs_scheduler(
                #[trigger] instruction::opcode_of_byte(func.code@[i].op),
            ),
{
    let mut i: usize = 0;
    while i < func.code.len()
        invariant
            0 <= i <= func.code@.len(),
            forall|j: int| 0 <= j < i ==> !needs_scheduler(#[trigger] instruction::opcode_of_byte(func.code@[j].op)),
        decreases func.code.len() - i,
    {
        match func.code[i].opcode() {
            Opcode::DeferPush | Opcode::ErrDeferPush | Opcode::Recover | Opcode::GoCall | Opcode::ChanSend
            | Opcode::ChanRecv | Opcode::ChanClose | Opcode::SelectBegin | Opcode::SelectSend
            | Opcode::SelectRecv | Opcode::SelectExec => {
                return false;
            },
            _ => {},
        }
        i = i + 1;
    }
    true
}

} // verus!
