//! Execution state of one goroutine of the interpreter: its value stack, call
//! frames, deferred calls and panic value; and the results of executing an
//! instruction.

use vstd::prelude::*;
use crate::heap::GcRef;
use crate::value::SlotType;

verus! {

/// One activation of a function.
#[derive(Debug, Clone, Copy, PartialEq, Eq, Structural)]
pub struct CallFrame {
    pub func_id: u32,
    pub pc: usize,
    /// Base of the frame's registers in the stack.
    pub bp: usize,
    /// Caller register that receives the return values.
    pub ret_reg: u16,
    /// Number of return values the caller takes.
    pub ret_count: u16,
}

/// A deferred call.
#[derive(Debug, Clone, Copy, PartialEq, Eq, Structural)]
pub struct DeferEntry {
    /// Depth of the frame stack when the call was deferred.
    pub frame_depth: usize,
    pub func_id: u32,
    /// The closure to call, when `is_closure`.
    pub closure: GcRef,
    /// Heap object holding the arguments (0 when there are none).
    pub args: GcRef,
    pub arg_slots: u16,
    pub is_closure: bool,
    /// Runs only when the function returns an error.
    pub is_errdefer: bool,
}

/// A return in progress while its deferred calls run.
#[derive(Debug)]
pub struct DeferState {
    /// Deferred calls still to run, next first.
    pub pending: Vec<DeferEntry>,
    /// Return values saved before the deferred calls.
    pub ret_vals: Vec<u64>,
    /// Slot types of the saved return values.
    pub ret_slot_types: Vec<SlotType>,
    pub caller_ret_reg: u16,
    pub caller_ret_count: usize,
    pub is_error_return: bool,
    /// Heap cells of escaped named results, read when the deferred calls are done.
    pub heap_gcrefs: Vec<u64>,
    pub value_slots_per_ref: usize,
}

/// Execution state of a goroutine.
#[derive(Debug)]
pub struct Fiber {
    pub stack: Vec<u64>,
    pub frames: Vec<CallFrame>,
    pub defer_stack: Vec<DeferEntry>,
    pub defer_state: Option<DeferState>,
    pub panic_value: Option<GcRef>,
}

/// Result of executing one instruction.
#[derive(Debug, Clone, Copy, PartialEq, Eq, Structural)]
pub enum ExecResult {
    Continue,
    Return,
    Yield,
    /// Blocked on a channel: wait to be woken.
    Block,
    Panic,
    Done,
    /// Request to switch to compiled code: function id, back-edge pc, loop header pc.
    Osr(u32, usize, usize),
}

/// Where a run-time error happened.
#[derive(Debug, Clone, Copy, PartialEq, Eq, Structural)]
pub struct ErrorLocation {
    pub func_id: u32,
    pub pc: u32,
}

/// Errors that stop the interpreter.
#[derive(Debug)]
pub enum VmError {
    NoEntryFunction,
    InvalidFunctionId(u32),
    StackOverflow,
    StackUnderflow,
    InvalidOpcode(u8),
    DivisionByZero(Option<ErrorLocation>),
    IndexOutOfBounds(Option<ErrorLocation>),
    NilPointerDereference(Option<ErrorLocation>),
    TypeAssertionFailed(Option<ErrorLocation>),
    PanicUnwound { msg: Option<String>, loc: Option<ErrorLocation> },
    SendOnClosedChannel(Option<ErrorLocation>),
}

/// Outcome of running a program.
#[derive(Debug, Clone, PartialEq, Eq)]
pub enum VmResult {
    /// Ran to the end.
    Success,
    Done,
    Yield,
    Panic(String),
}

/// Which part of the standard library is available.
#[derive(Debug, Clone, Copy, PartialEq, Eq, Structural)]
pub enum StdMode {
    /// No operating-system dependencies (WebAssembly, embedded).
    Core,
    /// The complete standard library.
    Full,
}

/// Base of the registers of the innermost frame (0 without frames).
pub open spec fn frame_base(frames: Seq<CallFrame>) -> int {
    if frames.len() == 0 {
        0
    } else {
        frames.last().bp as int
    }
}

impl Fiber {
    /// An idle goroutine: empty stack, no frames, no deferred calls, no panic.
    pub fn new() -> (r: Self)
        ensures
            r.stack@.len() == 0,
            r.frames@.len() == 0,
            r.defer_stack@.len() == 0,
            r.defer_state is None,
            r.panic_value is None,
    {
        Fiber { stack: Vec::new(), frames: Vec::new(), defer_stack: Vec::new(), defer_state: None, panic_value: None }
    }

    /// Register `reg` of the innermost frame.
    pub fn read_reg(&self, reg: u16) -> (v: u64)
        requires
            frame_base(self.frames@) + reg < self.stack@.len(),
        ensures
            v == self.stack@[frame_base(self.frames@) + reg],
    {
        let bp = if self.frames.len() == 0 { 0 } else { self.frames[self.frames.len() - 1].bp };
        assert(bp == frame_base(self.frames@));
        let n = self.stack.len();
        assert(bp + reg < n);
        self.stack[bp + reg as usize]
    }

    /// Set register `reg` of the innermost frame to `v`.
    pub fn write_reg(&mut self, reg: u16, v: u64)
        requires
            frame_base(old(self).frames@) + reg < old(self).stack@.len(),
        ensures
            final(self).stack@ == old(self).stack@.update(frame_base(old(self).frames@) + reg, v),
            final(self).frames@ == old(self).frames@,
            final(self).defer_stack@ == old(self).defer_stack@,
            final(self).defer_state == old(self).defer_state,
            final(self).panic_value == old(self).panic_value,
    {
        let bp = if self.frames.len() == 0 { 0 } else { self.frames[self.frames.len() - 1].bp };
        assert(bp == frame_base(self.frames@));
        let n = self.stack.len();
        assert(bp + reg < n);
        self.stack.set(bp + reg as usize, v);
    }
}

} // verus!
