//! The call protocol of the interpreter: calls push a frame whose registers follow
//! the caller's; returns pop it, run the frame's deferred calls (newest first) and
//! hand the results to the caller's registers. Also deferring, panic and recover,
//! and array allocation.
//!
//! A closure object holds its function id in slot 0 and its captured values after it.

use vstd::prelude::*;
use crate::bytecode::FunctionDef;
use crate::fiber::{self, CallFrame, DeferEntry, DeferState, ExecResult, Fiber};
use crate::heap::{self, Gc, GcRef};
use crate::instruction::Instruction;
use crate::value::{self, SlotType, ValueKind, ValueMeta};

verus! {

// ==================== Stack helpers ====================

/// `s` grown with zero slots to at least `n` slots.
pub open spec fn grow(s: Seq<u64>, n: int) -> Seq<u64> {
    if n <= s.len() {
        s
    } else {
        s + Seq::new((n - s.len()) as nat, |i: int| 0u64)
    }
}

/// Grow `stack` with zero slots to at least `n` slots.
fn grow_to(stack: &mut Vec<u64>, n: usize)
    ensures
        final(stack)@ == grow(old(stack)@, n as int),
{
    if stack.len() < n {
        let ghost s0 = stack@;
        while stack.len() < n
            invariant
                s0.len() <= stack@.len() <= n,
                stack@ == s0 + Seq::new((stack@.len() - s0.len()) as nat, |i: int| 0u64),
            decreases n - stack.len(),
        {
            stack.push(0);
            assert(stack@ =~= s0 + Seq::new((stack@.len() - s0.len()) as nat, |i: int| 0u64));
        }
    }
}

// ==================== Call ====================

/// Function id of a call: `a` in the low 16 bits, `flags` above.
pub open spec fn call_func_id(inst: Instruction) -> u32 {
    (inst.a as u32 + inst.flags as u32 * 65536) as u32
}

/// Number of argument slots of a call: the high byte of `c`.
pub open spec fn call_arg_slots(inst: Instruction) -> int {
    inst.c as int / 256
}

/// Number of result slots of a call: the low byte of `c`.
pub open spec fn call_ret_slots(inst: Instruction) -> int {
    inst.c as int % 256
}

/// The stack after a call: the caller's stack grown to hold `ret_end` slots, then
/// `locals` slots for the callee, whose first `arg_slots` are copied from `src ..`.
pub open spec fn call_stack(s: Seq<u64>, src: int, arg_slots: int, ret_end: int, locals: int) -> Seq<u64> {
    let s1 = grow(s, ret_end);
    Seq::new(
        (s1.len() + locals) as nat,
        |j: int|
            if j < s1.len() {
                s1[j]
            } else if j - s1.len() < arg_slots {
                s1[src + j - s1.len()]
            } else {
                0u64
            },
    )
}

/// Decode the operands of a call.
fn call_operands(inst: &Instruction) -> (r: (u32, usize, usize))
    ensures
        r.0 == call_func_id(*inst),
        r.1 == call_arg_slots(*inst),
        r.2 == call_ret_slots(*inst),
{
    let a = inst.a as u32;
    let f = inst.flags as u32;
    let func_id = a | (f << 16u32);
    assert(a < 0x10000 && f < 0x100 ==> a | (f << 16u32) == a + f * 65536) by (bit_vector);
    let c = inst.c;
    let arg_slots = (c >> 8u16) as usize;
    let ret_slots = (c & 0xFFu16) as usize;
    assert(c >> 8u16 == c / 256 && c & 0xFFu16 == c % 256) by (bit_vector);
    (func_id, arg_slots, ret_slots)
}

/// Call function `a | flags << 16` with `c >> 8` argument slots starting at
/// register `b`; its `c & 0xFF` results will be written back from register `b`.
pub fn exec_call(
    stack: &mut Vec<u64>,
    frames: &mut Vec<CallFrame>,
    inst: &Instruction,
    functions: &[FunctionDef],
) -> (r: ExecResult)
    requires
        call_func_id(*inst) < functions@.len(),
        fiber::frame_base(old(frames)@) <= old(stack)@.len(),
        old(stack)@.len() + 0x30000 <= usize::MAX,
        call_arg_slots(*inst) <= functions@[call_func_id(*inst) as int].local_slots,
        fiber::frame_base(old(frames)@) + inst.b + call_arg_slots(*inst) <= grow(
            old(stack)@,
            fiber::frame_base(old(frames)@) + inst.b + call_ret_slots(*inst),
        ).len(),
    ensures
        r == ExecResult::Return,
        ({
            let cbp = fiber::frame_base(old(frames)@);
            let ret_end = cbp + inst.b + call_ret_slots(*inst);
            let callee = functions@[call_func_id(*inst) as int];
            &&& final(stack)@ == call_stack(
                old(stack)@,
                cbp + inst.b,
                call_arg_slots(*inst),
                ret_end,
                callee.local_slots as int,
            )
            &&& final(frames)@ == old(frames)@.push(
                CallFrame {
                    func_id: call_func_id(*inst),
                    pc: 0,
                    bp: grow(old(stack)@, ret_end).len() as usize,
                    ret_reg: inst.b,
                    ret_count: call_ret_slots(*inst) as u16,
                },
            )
        }),
{
    let (func_id, arg_slots, ret_slots) = call_operands(inst);
    let local_slots = functions[func_id as usize].local_slots as usize;
    let caller_bp = if frames.len() == 0 { 0 } else { frames[frames.len() - 1].bp };
    assert(caller_bp == fiber::frame_base(frames@));
    let arg_start = inst.b as usize;
    let ret_write_end = caller_bp + arg_start + ret_slots;
    grow_to(stack, ret_write_end);
    let ghost s1 = stack@;
    let new_bp = stack.len();
    grow_to(stack, new_bp + local_slots);
    let mut i: usize = 0;
    while i < arg_slots
        invariant
            s1.len() == new_bp,
            caller_bp + arg_start + arg_slots <= new_bp,
            arg_slots <= local_slots,
            new_bp + local_slots <= usize::MAX,
            0 <= i <= arg_slots,
            stack@.len() == new_bp + local_slots,
            forall|j: int|
                0 <= j < stack@.len() ==> #[trigger] stack@[j] == (if j < new_bp {
                    s1[j]
                } else if j - new_bp < i {
                    s1[caller_bp + arg_start + j - new_bp]
                } else {
                    0u64
                }),
        decreases arg_slots - i,
    {
        let v = stack[caller_bp + arg_start + i];
        stack.set(new_bp + i, v);
        i = i + 1;
    }
    assert(stack@ =~= call_stack(
        old(stack)@,
        caller_bp + arg_start,
        arg_slots as int,
        ret_write_end as int,
        local_slots as int,
    ));
    frames.push(
        CallFrame { func_id, pc: 0, bp: new_bp, ret_reg: inst.b, ret_count: ret_slots as u16 },
    );
    ExecResult::Return
}

// ==================== Return ====================

/// The stack without the registers of a popped frame with base `bp`.
pub open spec fn cut(s: Seq<u64>, bp: int) -> Seq<u64> {
    if bp <= s.len() {
        s.subrange(0, bp)
    } else {
        s
    }
}

/// Pop the innermost frame and drop its registers from the stack.
pub fn pop_frame(stack: &mut Vec<u64>, frames: &mut Vec<CallFrame>) -> (r: Option<CallFrame>)
    ensures
        old(frames)@.len() == 0 ==> r is None && final(frames)@ == old(frames)@ && final(stack)@ == old(stack)@,
        old(frames)@.len() > 0 ==> {
            &&& r == Some(old(frames)@.last())
            &&& final(frames)@ == old(frames)@.drop_last()
            &&& final(stack)@ == cut(old(stack)@, old(frames)@.last().bp as int)
        },
{
    match frames.pop() {
        Some(frame) => {
            stack.truncate(frame.bp);
            Some(frame)
        },
        None => None,
    }
}

/// Number of results handed back: what the caller takes, at most what there is.
pub open spec fn write_count(ret_count: int, available: int) -> int {
    if ret_count <= available {
        ret_count
    } else {
        available
    }
}

/// The stack after results are handed back: without a caller frame the stack becomes
/// the results; otherwise they go to the caller's registers from `ret_reg`, the stack
/// grown to hold them.
pub open spec fn returned_stack(
    s: Seq<u64>,
    frames: Seq<CallFrame>,
    vals: Seq<u64>,
    ret_reg: int,
    ret_count: int,
) -> Seq<u64> {
    let n = write_count(ret_count, vals.len() as int);
    if frames.len() == 0 {
        vals.subrange(0, n)
    } else {
        let base = frames.last().bp + ret_reg;
        let g = grow(s, base + n);
        Seq::new(g.len(), |j: int| if base <= j < base + n { vals[j - base] } else { g[j] })
    }
}

/// `Done` when there is no caller frame, `Return` otherwise.
pub open spec fn returned_result(frames: Seq<CallFrame>) -> ExecResult {
    if frames.len() == 0 {
        ExecResult::Done
    } else {
        ExecResult::Return
    }
}

/// Hand the results `ret_vals` to the caller (at most `ret_count` of them).
pub fn write_return_values(
    stack: &mut Vec<u64>,
    frames: &[CallFrame],
    ret_vals: &[u64],
    ret_reg: u16,
    ret_count: usize,
) -> (r: ExecResult)
    requires
        fiber::frame_base(frames@) + ret_reg + ret_vals@.len() <= usize::MAX,
    ensures
        final(stack)@ == returned_stack(old(stack)@, frames@, ret_vals@, ret_reg as int, ret_count as int),
        r == returned_result(frames@),
{
    let n = if ret_count <= ret_vals.len() { ret_count } else { ret_vals.len() };
    if frames.len() == 0 {
        stack.truncate(0);
        let mut i: usize = 0;
        while i < n
            invariant
                n <= ret_vals@.len(),
                0 <= i <= n,
                stack@ == ret_vals@.subrange(0, i as int),
            decreases n - i,
        {
            stack.push(ret_vals[i]);
            assert(stack@ =~= ret_vals@.subrange(0, i + 1));
            i = i + 1;
        }
        ExecResult::Done
    } else {
        let caller_bp = frames[frames.len() - 1].bp;
        let base = caller_bp + ret_reg as usize;
        grow_to(stack, base + n);
        let ghost g = stack@;
        let mut i: usize = 0;
        while i < n
            invariant
                n <= ret_vals@.len(),
                base + n <= g.len(),
                base + n <= usize::MAX,
                0 <= i <= n,
                stack@.len() == g.len(),
                forall|j: int|
                    0 <= j < g.len() ==> #[trigger] stack@[j] == (if base <= j < base + i {
                        ret_vals@[j - base]
                    } else {
                        g[j]
                    }),
            decreases n - i,
        {
            stack.set(base + i, ret_vals[i]);
            i = i + 1;
        }
        assert(stack@ =~= returned_stack(old(stack)@, frames@, ret_vals@, ret_reg as int, ret_count as int));
        ExecResult::Return
    }
}

// ==================== Deferred calls ====================

/// Number of entries at the top of the defer stack that belong to frame depth `d`.
pub open spec fn top_run(ds: Seq<DeferEntry>, d: usize) -> nat
    decreases ds.len(),
{
    if ds.len() > 0 && ds.last().frame_depth == d {
        1 + top_run(ds.drop_last(), d)
    } else {
        0
    }
}

/// The deferred calls to run when the frame at depth `d` returns: the entries at the
/// top of the defer stack that belong to it, newest first, without the errdefers
/// unless the return is an error return.
pub open spec fn runnable(ds: Seq<DeferEntry>, d: usize, is_error_return: bool) -> Seq<DeferEntry>
    decreases ds.len(),
{
    if ds.len() > 0 && ds.last().frame_depth == d {
        let rest = runnable(ds.drop_last(), d, is_error_return);
        if ds.last().is_errdefer && !is_error_return {
            rest
        } else {
            seq![ds.last()] + rest
        }
    } else {
        Seq::empty()
    }
}

proof fn lemma_top_run_le(ds: Seq<DeferEntry>, d: usize)
    ensures
        top_run(ds, d) <= ds.len(),
    decreases ds.len(),
{
    if ds.len() > 0 && ds.last().frame_depth == d {
        lemma_top_run_le(ds.drop_last(), d);
    }
}

/// Take off the defer stack the entries of the frame at depth `frame_depth`, and
/// return those to run, newest first.
pub fn collect_pending_defers(
    defer_stack: &mut Vec<DeferEntry>,
    frame_depth: usize,
    is_error_return: bool,
) -> (r: Vec<DeferEntry>)
    ensures
        top_run(old(defer_stack)@, frame_depth) <= old(defer_stack)@.len(),
        final(defer_stack)@ == old(defer_stack)@.subrange(
            0,
            old(defer_stack)@.len() - top_run(old(defer_stack)@, frame_depth),
        ),
        r@ == runnable(old(defer_stack)@, frame_depth, is_error_return),
{
    let ghost ds0 = defer_stack@;
    proof {
        lemma_top_run_le(ds0, frame_depth);
    }
    let mut pending: Vec<DeferEntry> = Vec::new();
    loop
        invariant
            top_run(ds0, frame_depth) <= ds0.len(),
            defer_stack@.len() <= ds0.len(),
            defer_stack@ == ds0.subrange(0, defer_stack@.len() as int),
            top_run(ds0, frame_depth) == top_run(defer_stack@, frame_depth) + (ds0.len() - defer_stack@.len()),
            runnable(ds0, frame_depth, is_error_return) == pending@ + runnable(
                defer_stack@,
                frame_depth,
                is_error_return,
            ),
        ensures
            top_run(defer_stack@, frame_depth) == 0,
            defer_stack@ == ds0.subrange(0, defer_stack@.len() as int),
            top_run(ds0, frame_depth) == ds0.len() - defer_stack@.len(),
            runnable(ds0, frame_depth, is_error_return) == pending@,
        decreases defer_stack@.len(),
    {
        let n = defer_stack.len();
        if n == 0 || defer_stack[n - 1].frame_depth != frame_depth {
            break;
        }
        let ghost before = defer_stack@;
        let entry = defer_stack.pop().unwrap();
        assert(defer_stack@ == before.drop_last());
        assert(defer_stack@ == ds0.subrange(0, defer_stack@.len() as int));
        if entry.is_errdefer && !is_error_return {
            continue;
        }
        pending.push(entry);
        assert(runnable(before, frame_depth, is_error_return) == seq![entry] + runnable(
            defer_stack@,
            frame_depth,
            is_error_return,
        ));
        assert(pending@ == pending@.drop_last().push(entry));
        assert(pending@.drop_last() + (seq![entry] + runnable(defer_stack@, frame_depth, is_error_return))
            == pending@ + runnable(defer_stack@, frame_depth, is_error_return));
    }
    pending
}

/// The slots `0 .. per` of each of the objects `refs`, one object after the other.
pub open spec fn read_cells(gc: &Gc, refs: Seq<u64>, per: int) -> Seq<u64>
    decreases refs.len(),
{
    if refs.len() == 0 {
        Seq::empty()
    } else {
        read_cells(gc, refs.drop_last(), per) + gc.slots_of(refs.last()).subrange(0, per)
    }
}

/// Every reference names an object of at least `per` slots.
pub open spec fn cells_readable(gc: &Gc, refs: Seq<u64>, per: int) -> bool {
    forall|i: int| 0 <= i < refs.len() ==> gc.valid(#[trigger] refs[i]) && per <= gc.slots_of(refs[i]).len()
}

/// Read the values of escaped named results from their heap cells.
pub fn read_heap_gcrefs(gc: &Gc, heap_gcrefs: &[u64], value_slots_per_ref: usize) -> (r: Vec<u64>)
    requires
        cells_readable(gc, heap_gcrefs@, value_slots_per_ref as int),
    ensures
        r@ == read_cells(gc, heap_gcrefs@, value_slots_per_ref as int),
{
    let mut vals: Vec<u64> = Vec::new();
    let mut k: usize = 0;
    while k < heap_gcrefs.len()
        invariant
            cells_readable(gc, heap_gcrefs@, value_slots_per_ref as int),
            0 <= k <= heap_gcrefs@.len(),
            vals@ == read_cells(gc, heap_gcrefs@.subrange(0, k as int), value_slots_per_ref as int),
        decreases heap_gcrefs.len() - k,
    {
        let r = heap_gcrefs[k];
        let ghost v0 = vals@;
        let mut o: usize = 0;
        while o < value_slots_per_ref
            invariant
                gc.valid(r),
                value_slots_per_ref <= gc.slots_of(r).len(),
                0 <= o <= value_slots_per_ref,
                vals@ == v0 + gc.slots_of(r).subrange(0, o as int),
            decreases value_slots_per_ref - o,
        {
            vals.push(gc.read_slot(r, o));
            assert(vals@ =~= v0 + gc.slots_of(r).subrange(0, o + 1));
            o = o + 1;
        }
        assert(heap_gcrefs@.subrange(0, k + 1).drop_last() == heap_gcrefs@.subrange(0, k as int));
        k = k + 1;
    }
    assert(heap_gcrefs@.subrange(0, heap_gcrefs@.len() as int) == heap_gcrefs@);
    vals
}

/// Function id held by a closure object (its slot 0).
pub open spec fn closure_func(gc: &Gc, c: GcRef) -> u32 {
    (gc.slots_of(c)[0] % 0x1_0000_0000) as u32
}

/// The function a deferred call runs.
pub open spec fn defer_func(gc: &Gc, e: DeferEntry) -> u32 {
    if e.is_closure {
        closure_func(gc, e.closure)
    } else {
        e.func_id
    }
}

/// A deferred call can start: its closure and argument objects exist, and its
/// function has room for the closure and arguments.
pub open spec fn defer_callable(gc: &Gc, e: DeferEntry, functions: Seq<FunctionDef>) -> bool {
    &&& e.is_closure ==> gc.valid(e.closure) && gc.slots_of(e.closure).len() >= 1
    &&& defer_func(gc, e) < functions.len()
    &&& e.args != 0 ==> gc.valid(e.args) && e.arg_slots <= gc.slots_of(e.args).len()
    &&& e.args != 0 ==> e.arg_slots <= functions[defer_func(gc, e) as int].local_slots
    &&& e.is_closure ==> functions[defer_func(gc, e) as int].local_slots >= 1
}

/// The stack after a deferred call starts: the callee's locals on top, holding the
/// arguments, and the closure in the first slot of a closure call.
pub open spec fn defer_call_stack(s: Seq<u64>, gc: &Gc, e: DeferEntry, locals: int) -> Seq<u64> {
    let b = s.len();
    Seq::new(
        (b + locals) as nat,
        |j: int|
            if j < b {
                s[j]
            } else if e.is_closure && j == b {
                e.closure
            } else if e.args != 0 && j - b < e.arg_slots {
                gc.slots_of(e.args)[j - b]
            } else {
                0u64
            },
    )
}

/// The frame of a deferred call: no results are taken.
pub open spec fn defer_frame(gc: &Gc, e: DeferEntry, bp: int) -> CallFrame {
    CallFrame { func_id: defer_func(gc, e), pc: 0, bp: bp as usize, ret_reg: 0, ret_count: 0 }
}

/// Start the deferred call `entry`.
pub fn call_defer_entry(
    stack: &mut Vec<u64>,
    frames: &mut Vec<CallFrame>,
    entry: &DeferEntry,
    functions: &[FunctionDef],
    gc: &Gc,
) -> (r: ExecResult)
    requires
        defer_callable(gc, *entry, functions@),
        old(stack)@.len() + 0x10000 <= usize::MAX,
    ensures
        r == ExecResult::Return,
        final(stack)@ == defer_call_stack(
            old(stack)@,
            gc,
            *entry,
            functions@[defer_func(gc, *entry) as int].local_slots as int,
        ),
        final(frames)@ == old(frames)@.push(defer_frame(gc, *entry, old(stack)@.len() as int)),
{
    let func_id = if entry.is_closure {
        let w = gc.read_slot(entry.closure, 0);
        (w % 0x1_0000_0000) as u32
    } else {
        entry.func_id
    };
    let local_slots = functions[func_id as usize].local_slots as usize;
    let arg_slots = entry.arg_slots as usize;
    let args_start = stack.len();
    grow_to(stack, args_start + local_slots);
    let ghost s0 = old(stack)@;
    if entry.args != 0 {
        let mut i: usize = 0;
        while i < arg_slots
            invariant
                gc.valid(entry.args),
                arg_slots == entry.arg_slots,
                arg_slots <= gc.slots_of(entry.args).len(),
                arg_slots <= local_slots,
                s0.len() == args_start,
                args_start + local_slots <= usize::MAX,
                stack@.len() == args_start + local_slots,
                0 <= i <= arg_slots,
                forall|j: int|
                    0 <= j < stack@.len() ==> #[trigger] stack@[j] == (if j < args_start {
                        s0[j]
                    } else if j - args_start < i {
                        gc.slots_of(entry.args)[j - args_start]
                    } else {
                        0u64
                    }),
            decreases arg_slots - i,
        {
            let v = gc.read_slot(entry.args, i);
            stack.set(args_start + i, v);
            i = i + 1;
        }
    }
    if entry.is_closure {
        stack.set(args_start, entry.closure);
    }
    assert(stack@ =~= defer_call_stack(s0, gc, *entry, local_slots as int));
    frames.push(CallFrame { func_id, pc: 0, bp: args_start, ret_reg: 0, ret_count: 0 });
    ExecResult::Return
}

/// The stack once the innermost frame (if any) is popped.
pub open spec fn pop_stack(s: Seq<u64>, frames: Seq<CallFrame>) -> Seq<u64> {
    if frames.len() == 0 {
        s
    } else {
        cut(s, frames.last().bp as int)
    }
}

/// The frames once the innermost one (if any) is popped.
pub open spec fn pop_frames(frames: Seq<CallFrame>) -> Seq<CallFrame> {
    if frames.len() == 0 {
        frames
    } else {
        frames.drop_last()
    }
}

/// After popping the returning frame from `(s0, f0)`, the deferred call `e` started,
/// giving `(s1, f1)`.
pub open spec fn starts_defer(
    s0: Seq<u64>,
    f0: Seq<CallFrame>,
    s1: Seq<u64>,
    f1: Seq<CallFrame>,
    gc: &Gc,
    e: DeferEntry,
    functions: Seq<FunctionDef>,
) -> bool {
    let ps = pop_stack(s0, f0);
    &&& s1 == defer_call_stack(ps, gc, e, functions[defer_func(gc, e) as int].local_slots as int)
    &&& f1 == pop_frames(f0).push(defer_frame(gc, e, ps.len() as int))
}

/// After popping the returning frame from `(s0, f0)`, the results `vals` went to the
/// caller, giving `(s1, f1)` and the result `r`.
pub open spec fn hands_back(
    s0: Seq<u64>,
    f0: Seq<CallFrame>,
    s1: Seq<u64>,
    f1: Seq<CallFrame>,
    vals: Seq<u64>,
    ret_reg: int,
    ret_count: int,
    r: ExecResult,
) -> bool {
    let pf = pop_frames(f0);
    &&& s1 == returned_stack(pop_stack(s0, f0), pf, vals, ret_reg, ret_count)
    &&& f1 == pf
    &&& r == returned_result(pf)
}

/// Frame bases never decrease, and the innermost one is within the stack.
pub open spec fn frames_ordered(frames: Seq<CallFrame>, stack_len: int) -> bool {
    &&& forall|i: int, j: int| 0 <= i <= j < frames.len() ==> #[trigger] frames[i].bp <= #[trigger] frames[j].bp
    &&& frames.len() > 0 ==> frames.last().bp <= stack_len
}

/// The slot types of registers `start .. start + count`, or none when they run past
/// the function's slots.
pub open spec fn ret_types(func: FunctionDef, start: int, count: int) -> Seq<SlotType> {
    if start + count <= func.slot_types@.len() {
        func.slot_types@.subrange(start, start + count)
    } else {
        Seq::empty()
    }
}

proof fn lemma_pop_base(frames: Seq<CallFrame>, stack_len: int)
    requires
        frames_ordered(frames, stack_len),
        frames.len() > 0,
    ensures
        fiber::frame_base(frames.drop_last()) <= frames.last().bp,
        pop_stack(Seq::<u64>::empty(), frames).len() == 0,
{
    if frames.len() > 1 {
        assert(frames.drop_last().last() == frames[frames.len() - 2]);
        assert(frames[frames.len() - 2].bp <= frames[frames.len() - 1].bp);
    }
}

/// Copy `stack[from .. from + n]` into a new vector.
fn copy_regs(stack: &Vec<u64>, from: usize, n: usize) -> (r: Vec<u64>)
    requires
        from + n <= stack@.len(),
    ensures
        r@ == stack@.subrange(from as int, from + n),
{
    let mut out: Vec<u64> = Vec::new();
    let len = stack.len();
    let mut i: usize = 0;
    while i < n
        invariant
            from + n <= stack@.len(),
            len == stack@.len(),
            0 <= i <= n,
            out@ == stack@.subrange(from as int, from + i),
        decreases n - i,
    {
        out.push(stack[from + i]);
        assert(out@ =~= stack@.subrange(from as int, from + i + 1));
        i = i + 1;
    }
    out
}

/// The slot types of registers `start .. start + count` of `func`.
fn copy_ret_types(func: &FunctionDef, start: usize, count: usize) -> (r: Vec<SlotType>)
    requires
        start + count <= usize::MAX,
    ensures
        r@ == ret_types(*func, start as int, count as int),
{
    let mut out: Vec<SlotType> = Vec::new();
    if start + count <= func.slot_types.len() {
        let mut i: usize = 0;
        while i < count
            invariant
                start + count <= func.slot_types@.len(),
                start + count <= usize::MAX,
                0 <= i <= count,
                out@ == func.slot_types@.subrange(start as int, start + i),
            decreases count - i,
        {
            out.push(func.slot_types[start + i]);
            assert(out@ =~= func.slot_types@.subrange(start as int, start + i + 1));
            i = i + 1;
        }
    }
    out
}

/// Return from the innermost frame. Registers `a .. a + b` hold the results (with
/// bit 1 of the flags: references to `c`-slot heap cells holding them). The frame's
/// deferred calls run first, newest first, errdefers only on an error return; while
/// they run, the results wait in `defer_state`, and each deferred call that returns
/// comes back here to start the next one or, when none is left, to hand the results
/// to the caller.
#[verifier::rlimit(50)]
pub fn exec_return(
    stack: &mut Vec<u64>,
    frames: &mut Vec<CallFrame>,
    defer_stack: &mut Vec<DeferEntry>,
    defer_state: &mut Option<DeferState>,
    inst: &Instruction,
    func: &FunctionDef,
    functions: &[FunctionDef],
    gc: &Gc,
    is_error_return: bool,
) -> (r: ExecResult)
    requires
        frames_ordered(old(frames)@, old(stack)@.len() as int),
        old(stack)@.len() + 0x1_0003_0000 <= usize::MAX,
        match *old(defer_state) {
            Some(st) => if st.pending@.len() > 0 {
                defer_callable(gc, st.pending@[0], functions@)
            } else {
                &&& st.heap_gcrefs@.len() > 0 ==> cells_readable(gc, st.heap_gcrefs@, st.value_slots_per_ref as int)
                    && st.heap_gcrefs@.len() * st.value_slots_per_ref <= 0x1_0000_0000
                &&& st.heap_gcrefs@.len() == 0 ==> st.ret_vals@.len() <= 0x1_0000_0000
            },
            None => {
                let bp = old(frames)@.last().bp as int;
                let pending = runnable(old(defer_stack)@, old(frames)@.len() as usize, is_error_return);
                &&& old(frames)@.len() > 0
                &&& bp + inst.a + inst.b <= old(stack)@.len()
                &&& pending.len() > 0 ==> defer_callable(gc, pending[0], functions@)
                &&& (inst.flags & 2 != 0 && pending.len() == 0) ==> cells_readable(
                    gc,
                    old(stack)@.subrange(bp + inst.a, bp + inst.a + inst.b),
                    inst.c as int,
                )
            },
        },
    ensures
        match *old(defer_state) {
            Some(st) => if st.pending@.len() > 0 {
                &&& starts_defer(old(stack)@, old(frames)@, final(stack)@, final(frames)@, gc, st.pending@[0], functions@)
                &&& r == ExecResult::Return
                &&& final(defer_stack)@ == old(defer_stack)@
                &&& *final(defer_state) matches Some(ns) && ns.pending@ == st.pending@.drop_first()
                    && ns.ret_vals@ == st.ret_vals@ && ns.ret_slot_types@ == st.ret_slot_types@
                    && ns.caller_ret_reg == st.caller_ret_reg && ns.caller_ret_count == st.caller_ret_count
                    && ns.is_error_return == st.is_error_return && ns.heap_gcrefs@ == st.heap_gcrefs@
                    && ns.value_slots_per_ref == st.value_slots_per_ref
            } else {
                let vals = if st.heap_gcrefs@.len() > 0 {
                    read_cells(gc, st.heap_gcrefs@, st.value_slots_per_ref as int)
                } else {
                    st.ret_vals@
                };
                &&& hands_back(old(stack)@, old(frames)@, final(stack)@, final(frames)@, vals,
                    st.caller_ret_reg as int, st.caller_ret_count as int, r)
                &&& final(defer_stack)@ == old(defer_stack)@
                &&& *final(defer_state) is None
            },
            None => {
                let fr = old(frames)@.last();
                let bp = fr.bp as int;
                let depth = old(frames)@.len() as usize;
                let pending = runnable(old(defer_stack)@, depth, is_error_return);
                let trimmed = old(defer_stack)@.subrange(0, old(defer_stack)@.len() - top_run(old(defer_stack)@, depth));
                let regs = old(stack)@.subrange(bp + inst.a, bp + inst.a + inst.b);
                &&& final(defer_stack)@ == trimmed
                &&& if inst.flags & 2 != 0 {
                    if pending.len() > 0 {
                        &&& starts_defer(old(stack)@, old(frames)@, final(stack)@, final(frames)@, gc, pending[0], functions@)
                        &&& r == ExecResult::Return
                        &&& *final(defer_state) matches Some(ns) && ns.pending@ == pending.drop_first()
                            && ns.ret_vals@.len() == 0 && ns.ret_slot_types@.len() == 0
                            && ns.caller_ret_reg == fr.ret_reg && ns.caller_ret_count == fr.ret_count
                            && ns.is_error_return == is_error_return && ns.heap_gcrefs@ == regs
                            && ns.value_slots_per_ref == inst.c
                    } else {
                        &&& hands_back(old(stack)@, old(frames)@, final(stack)@, final(frames)@,
                            read_cells(gc, regs, inst.c as int), fr.ret_reg as int, fr.ret_count as int, r)
                        &&& *final(defer_state) is None
                    }
                } else if pending.len() > 0 {
                    &&& starts_defer(old(stack)@, old(frames)@, final(stack)@, final(frames)@, gc, pending[0], functions@)
                    &&& r == ExecResult::Return
                    &&& *final(defer_state) matches Some(ns) && ns.pending@ == pending.drop_first()
                        && ns.ret_vals@ == regs
                        && ns.ret_slot_types@ == ret_types(*func, inst.a as int, inst.b as int)
                        && ns.caller_ret_reg == fr.ret_reg && ns.caller_ret_count == fr.ret_count
                        && ns.is_error_return == is_error_return && ns.heap_gcrefs@.len() == 0
                        && ns.value_slots_per_ref == 0
                } else {
                    &&& hands_back(old(stack)@, old(frames)@, final(stack)@, final(frames)@,
                        regs.subrange(0, write_count(fr.ret_count as int, inst.b as int)),
                        fr.ret_reg as int, fr.ret_count as int, r)
                    &&& *final(defer_state) is None
                }
            },
        },
{
    let ghost s0 = stack@;
    let ghost f0 = frames@;
    let current_frame_depth = frames.len();
    if defer_state.is_some() {
        let mut state = defer_state.take().unwrap();
        if state.pending.len() > 0 {
            let entry = state.pending.remove(0);
            *defer_state = Some(state);
            pop_frame(stack, frames);
            return call_defer_entry(stack, frames, &entry, functions, gc);
        } else {
            let ret_vals = if state.heap_gcrefs.len() > 0 {
                read_heap_gcrefs(gc, state.heap_gcrefs.as_slice(), state.value_slots_per_ref)
            } else {
                state.ret_vals
            };
            let caller_ret_reg = state.caller_ret_reg;
            let caller_ret_count = state.caller_ret_count;
            pop_frame(stack, frames);
            proof {
                if f0.len() > 0 {
                    lemma_pop_base(f0, s0.len() as int);
                }
                if state.heap_gcrefs@.len() > 0 {
                    assert(state.value_slots_per_ref >= 0);
                    lemma_read_cells_len(gc, state.heap_gcrefs@, state.value_slots_per_ref as int);
                }
            }
            return write_return_values(stack, frames.as_slice(), ret_vals.as_slice(), caller_ret_reg, caller_ret_count);
        }
    }
    let heap_returns = (inst.flags & 0x02) != 0;
    let ret_start = inst.a as usize;
    let ret_count = inst.b as usize;
    let nd = defer_stack.len();
    let has_defers = nd > 0 && defer_stack[nd - 1].frame_depth == current_frame_depth;
    let frame = frames[frames.len() - 1];
    let current_bp = frame.bp;
    proof {
        lemma_pop_base(f0, s0.len() as int);
    }
    if heap_returns {
        let gcref_count = inst.b as usize;
        let value_slots_per_ref = inst.c as usize;
        let heap_gcrefs = copy_regs(stack, current_bp + ret_start, gcref_count);
        let mut pending = collect_pending_defers(defer_stack, current_frame_depth, is_error_return);
        pop_frame(stack, frames);
        if pending.len() > 0 {
            let first_defer = pending.remove(0);
            *defer_state = Some(DeferState {
                pending,
                ret_vals: Vec::new(),
                ret_slot_types: Vec::new(),
                caller_ret_reg: frame.ret_reg,
                caller_ret_count: frame.ret_count as usize,
                is_error_return,
                heap_gcrefs,
                value_slots_per_ref,
            });
            return call_defer_entry(stack, frames, &first_defer, functions, gc);
        } else {
            proof {
                assert(heap_gcrefs@.len() * value_slots_per_ref <= 0xFFFF * 0xFFFF) by (nonlinear_arith)
                    requires
                        heap_gcrefs@.len() <= 0xFFFF,
                        value_slots_per_ref <= 0xFFFF,
                ;
                lemma_read_cells_len(gc, heap_gcrefs@, value_slots_per_ref as int);
            }
            let ret_vals = read_heap_gcrefs(gc, heap_gcrefs.as_slice(), value_slots_per_ref);
            return write_return_values(stack, frames.as_slice(), ret_vals.as_slice(), frame.ret_reg, frame.ret_count as usize);
        }
    }
    proof {
        lemma_runnable_empty(defer_stack@, current_frame_depth, is_error_return);
    }
    if !has_defers && ret_count <= 4 {
        let write_count = if (frame.ret_count as usize) <= ret_count { frame.ret_count as usize } else { ret_count };
        let ret_buf = copy_regs(stack, current_bp + ret_start, write_count);
        assert(ret_buf@ == s0.subrange(current_bp + ret_start, current_bp + ret_start + ret_count).subrange(0, write_count as int));
        pop_frame(stack, frames);
        assert(defer_stack@ == defer_stack@.subrange(0, defer_stack@.len() as int));
        return write_return_values(stack, frames.as_slice(), ret_buf.as_slice(), frame.ret_reg, frame.ret_count as usize);
    }
    let ret_vals = copy_regs(stack, current_bp + ret_start, ret_count);
    let ret_slot_types = copy_ret_types(func, ret_start, ret_count);
    let mut pending = collect_pending_defers(defer_stack, current_frame_depth, is_error_return);
    pop_frame(stack, frames);
    if pending.len() > 0 {
        let first_defer = pending.remove(0);
        *defer_state = Some(DeferState {
            pending,
            ret_vals,
            ret_slot_types,
            caller_ret_reg: frame.ret_reg,
            caller_ret_count: frame.ret_count as usize,
            is_error_return,
            heap_gcrefs: Vec::new(),
            value_slots_per_ref: 0,
        });
        return call_defer_entry(stack, frames, &first_defer, functions, gc);
    }
    proof {
        lemma_returned_prefix(stack@, frames@, ret_vals@, frame.ret_reg as int, frame.ret_count as int);
    }
    write_return_values(stack, frames.as_slice(), ret_vals.as_slice(), frame.ret_reg, frame.ret_count as usize)
}

/// Only the results the caller takes matter.
proof fn lemma_returned_prefix(s: Seq<u64>, frames: Seq<CallFrame>, vals: Seq<u64>, ret_reg: int, ret_count: int)
    requires
        ret_count >= 0,
    ensures
        returned_stack(s, frames, vals, ret_reg, ret_count) == returned_stack(
            s,
            frames,
            vals.subrange(0, write_count(ret_count, vals.len() as int)),
            ret_reg,
            ret_count,
        ),
{
    let n = write_count(ret_count, vals.len() as int);
    assert(write_count(ret_count, n) == n);
    assert(returned_stack(s, frames, vals, ret_reg, ret_count) =~= returned_stack(
        s,
        frames,
        vals.subrange(0, n),
        ret_reg,
        ret_count,
    ));
}

proof fn lemma_read_cells_len(gc: &Gc, refs: Seq<u64>, per: int)
    requires
        cells_readable(gc, refs, per),
        per >= 0,
    ensures
        read_cells(gc, refs, per).len() == refs.len() * per,
    decreases refs.len(),
{
    if refs.len() > 0 {
        assert(cells_readable(gc, refs.drop_last(), per)) by {
            assert forall|i: int| 0 <= i < refs.drop_last().len() implies gc.valid(#[trigger] refs.drop_last()[i])
                && per <= gc.slots_of(refs.drop_last()[i]).len() by {
                assert(refs.drop_last()[i] == refs[i]);
            }
        }
        lemma_read_cells_len(gc, refs.drop_last(), per);
        assert(gc.valid(refs[refs.len() - 1]));
        assert(refs.len() * per == (refs.len() - 1) * per + per) by (nonlinear_arith);
    }
}

proof fn lemma_runnable_empty(ds: Seq<DeferEntry>, d: usize, e: bool)
    ensures
        top_run(ds, d) == 0 ==> runnable(ds, d, e).len() == 0,
        (ds.len() > 0 && ds.last().frame_depth == d) <==> top_run(ds, d) > 0,
{
}

// ==================== Defer, panic, recover ====================

/// Register `r` of the innermost frame of `f`.
pub open spec fn reg(f: &Fiber, r: int) -> u64 {
    f.stack@[fiber::frame_base(f.frames@) + r]
}

/// The registers `from .. from + n` of the innermost frame exist.
pub open spec fn regs_exist(f: &Fiber, from: int, n: int) -> bool {
    fiber::frame_base(f.frames@) + from + n <= f.stack@.len()
}

/// The deferred call recorded by a defer instruction: a closure in register `a` when
/// bit 0 of the flags is set, else function `a | (flags >> 1) << 16`; its `c`
/// arguments, from register `b`, copied into a new heap object `args` (0 when `c`
/// is 0).
pub open spec fn deferred_entry(f: &Fiber, inst: Instruction, args: GcRef, is_errdefer: bool) -> DeferEntry {
    let is_closure = inst.flags % 2 == 1;
    DeferEntry {
        frame_depth: f.frames@.len() as usize,
        func_id: if is_closure { 0 } else { (inst.a as u32 + (inst.flags as u32 / 2) * 65536) as u32 },
        closure: if is_closure { reg(f, inst.a as int) } else { 0 },
        args: if inst.c > 0 { args } else { 0 },
        arg_slots: inst.c,
        is_closure,
        is_errdefer,
    }
}

/// What a defer instruction does: the deferred call goes on the defer stack, and when
/// it has arguments they are copied into a new heap object of kind array.
pub open spec fn defers(f0: &Fiber, f1: &Fiber, gc0: &Gc, gc1: &Gc, inst: Instruction, is_errdefer: bool) -> bool {
    &&& f1.stack@ == f0.stack@
    &&& f1.frames@ == f0.frames@
    &&& f1.defer_state == f0.defer_state
    &&& f1.panic_value == f0.panic_value
    &&& f1.defer_stack@ == f0.defer_stack@.push(deferred_entry(f0, inst, (gc0.count() + 1) as u64, is_errdefer))
    &&& gc1.gray() == gc0.gray()
    &&& if inst.c > 0 {
        &&& gc1.extends(gc0)
        &&& gc1.meta_of((gc0.count() + 1) as u64) == (ValueMeta { raw: value::kind_byte(ValueKind::Array) as u32 })
        &&& gc1.slots_of((gc0.count() + 1) as u64) == f0.stack@.subrange(
            fiber::frame_base(f0.frames@) + inst.b,
            fiber::frame_base(f0.frames@) + inst.b + inst.c,
        )
    } else {
        gc1.count() == gc0.count() && forall|k: GcRef| #[trigger] gc0.valid(k) ==> gc1.slots_of(k) == gc0.slots_of(k)
            && gc1.meta_of(k) == gc0.meta_of(k)
    }
}

/// The registers a defer instruction reads exist, and the heap has room.
pub open spec fn can_defer(f: &Fiber, gc: &Gc, inst: Instruction) -> bool {
    &&& inst.flags % 2 == 1 ==> regs_exist(f, inst.a as int, 1)
    &&& inst.c > 0 ==> regs_exist(f, inst.b as int, inst.c as int) && inst.b + inst.c <= 0x10000
    &&& gc.count() < u64::MAX
}

fn push_defer_entry(fiber: &mut Fiber, inst: &Instruction, gc: &mut Gc, is_errdefer: bool)
    requires
        can_defer(old(fiber), old(gc), *inst),
    ensures
        defers(old(fiber), final(fiber), old(gc), final(gc), *inst, is_errdefer),
{
    let flags = inst.flags;
    let is_closure = (flags & 1) != 0;
    assert((flags & 1 != 0) == (flags % 2 == 1)) by (bit_vector);
    let arg_start = inst.b;
    let arg_slots = inst.c;
    let frame_depth = fiber.frames.len();
    let (func_id, closure) = if is_closure {
        (0u32, fiber.read_reg(inst.a))
    } else {
        let a = inst.a as u32;
        let fw = flags as u32;
        let hi = fw >> 1u32;
        assert(a < 0x10000 && hi < 0x80 ==> a | (hi << 16u32) == a + hi * 65536) by (bit_vector);
        assert(hi == fw / 2 && hi < 0x80) by (bit_vector)
            requires
                hi == fw >> 1u32,
                fw < 0x100,
        ;
        (a | (hi << 16u32), 0u64)
    };
    let ghost gc0 = *gc;
    let args = if arg_slots > 0 {
        let args_ref = gc.alloc_object(ValueMeta::new(0, ValueKind::Array), arg_slots);
        let ghost g1 = *gc;
        let ghost base = fiber::frame_base(fiber.frames@) + arg_start;
        let mut i: u16 = 0;
        while i < arg_slots
            invariant
                g1.extends(&gc0),
                args_ref == gc0.count() + 1,
                g1.count() == args_ref,
                gc.same_except(&g1, args_ref),
                gc.gray() == gc0.gray(),
                gc.slots_of(args_ref).len() == arg_slots,
                0 <= i <= arg_slots,
                arg_start + arg_slots <= 0x10000,
                regs_exist(fiber, arg_start as int, arg_slots as int),
                base == fiber::frame_base(fiber.frames@) + arg_start,
                forall|j: int|
                    0 <= j < arg_slots ==> #[trigger] gc.slots_of(args_ref)[j] == (if j < i {
                        fiber.stack@[base + j]
                    } else {
                        0u64
                    }),
            decreases arg_slots - i,
        {
            let val = fiber.read_reg(arg_start + i);
            let ghost before = *gc;
            gc.write_slot(args_ref, i as usize, val);
            proof {
                Gc::lemma_same_except_trans(&g1, &before, gc, args_ref);
            }
            i = i + 1;
        }
        proof {
            Gc::lemma_extends_then_change(&gc0, &g1, gc, args_ref);
            assert(gc.slots_of(args_ref) =~= fiber.stack@.subrange(base, base + arg_slots));
        }
        args_ref
    } else {
        0u64
    };
    fiber.defer_stack.push(DeferEntry {
        frame_depth,
        func_id,
        closure,
        args,
        arg_slots,
        is_closure,
        is_errdefer,
    });
}

/// `defer`: record a deferred call of the current frame.
pub fn exec_defer_push(fiber: &mut Fiber, inst: &Instruction, gc: &mut Gc)
    requires
        can_defer(old(fiber), old(gc), *inst),
    ensures
        defers(old(fiber), final(fiber), old(gc), final(gc), *inst, false),
{
    push_defer_entry(fiber, inst, gc, false);
}

/// `errdefer`: record a deferred call that runs only on an error return.
pub fn exec_err_defer_push(fiber: &mut Fiber, inst: &Instruction, gc: &mut Gc)
    requires
        can_defer(old(fiber), old(gc), *inst),
    ensures
        defers(old(fiber), final(fiber), old(gc), final(gc), *inst, true),
{
    push_defer_entry(fiber, inst, gc, true);
}

/// `panic`: the value in register `a` becomes the panic value.
pub fn exec_panic(fiber: &mut Fiber, inst: &Instruction) -> (r: ExecResult)
    requires
        regs_exist(old(fiber), inst.a as int, 1),
    ensures
        r == ExecResult::Panic,
        final(fiber).panic_value == Some(reg(old(fiber), inst.a as int)),
        final(fiber).stack@ == old(fiber).stack@,
        final(fiber).frames@ == old(fiber).frames@,
        final(fiber).defer_stack@ == old(fiber).defer_stack@,
        final(fiber).defer_state == old(fiber).defer_state,
{
    let val = fiber.read_reg(inst.a);
    fiber.panic_value = Some(val);
    ExecResult::Panic
}

/// `recover`: register `a` receives the panic value (0 without a panic), which is
/// cleared.
pub fn exec_recover(fiber: &mut Fiber, inst: &Instruction)
    requires
        regs_exist(old(fiber), inst.a as int, 1),
    ensures
        final(fiber).panic_value is None,
        final(fiber).stack@ == old(fiber).stack@.update(
            fiber::frame_base(old(fiber).frames@) + inst.a,
            match old(fiber).panic_value {
                Some(v) => v,
                None => 0u64,
            },
        ),
        final(fiber).frames@ == old(fiber).frames@,
        final(fiber).defer_stack@ == old(fiber).defer_stack@,
        final(fiber).defer_state == old(fiber).defer_state,
{
    let val = match fiber.panic_value.take() {
        Some(v) => v,
        None => 0,
    };
    fiber.write_reg(inst.a, val);
}

/// A recover after a panic hands back the panic value, and leaves no panic behind.
pub proof fn lemma_recover_after_panic(f0: &Fiber, f1: &Fiber, f2: &Fiber, panic_reg: u16, dst: u16)
    requires
        f1.panic_value == Some(reg(f0, panic_reg as int)),
        f1.stack@ == f0.stack@,
        f1.frames@ == f0.frames@,
        regs_exist(f1, dst as int, 1),
        f2.panic_value is None,
        f2.stack@ == f1.stack@.update(
            fiber::frame_base(f1.frames@) + dst,
            match f1.panic_value {
                Some(v) => v,
                None => 0u64,
            },
        ),
        f2.frames@ == f1.frames@,
    ensures
        reg(f2, dst as int) == reg(f0, panic_reg as int),
        f2.panic_value is None,
{
}

// ==================== Arrays ====================

/// `array_new`: register `a` receives a new array whose element metadata is in
/// register `b` and length in register `c`; the flags give the size of an element.
pub fn exec_array_new(fiber: &mut Fiber, inst: &Instruction, gc: &mut Gc)
    requires
        regs_exist(old(fiber), inst.a as int, 1),
        regs_exist(old(fiber), inst.b as int, 1),
        regs_exist(old(fiber), inst.c as int, 1),
        old(gc).count() < u64::MAX,
        ({
            let len = reg(old(fiber), inst.c as int) as usize;
            &&& heap::HEADER_SLOTS + len * inst.flags <= usize::MAX
            &&& (heap::HEADER_SLOTS + len * inst.flags) % 0x10000 >= heap::HEADER_SLOTS
        }),
    ensures
        final(gc).extends(old(gc)),
        final(gc).gray() == old(gc).gray(),
        final(fiber).stack@ == old(fiber).stack@.update(
            fiber::frame_base(old(fiber).frames@) + inst.a,
            (old(gc).count() + 1) as u64,
        ),
        final(fiber).frames@ == old(fiber).frames@,
        ({
            let arr = (old(gc).count() + 1) as u64;
            &&& heap::is_array(final(gc), arr)
            &&& heap::array_len(final(gc), arr) == reg(old(fiber), inst.c as int) as usize
            &&& heap::array_elem_meta(final(gc), arr) == (ValueMeta {
                raw: (reg(old(fiber), inst.b as int) % 0x1_0000_0000) as u32,
            })
            &&& heap::array_elem_bytes(final(gc), arr) == inst.flags * 8
        }),
{
    let meta_word = fiber.read_reg(inst.b);
    let elem_meta = ValueMeta::from_raw((meta_word % 0x1_0000_0000) as u32);
    let len = fiber.read_reg(inst.c) as usize;
    let elem_bytes = inst.flags as usize;
    let arr = heap::create(gc, elem_meta, elem_bytes, len);
    fiber.write_reg(inst.a, arr);
}

// ==================== Closure calls ====================

/// The stack after a closure call: the callee's locals on top, `first` in the first
/// one, and `arg_slots` arguments copied from `src ..` into the locals from `start`.
pub open spec fn closure_call_stack(s: Seq<u64>, first: u64, start: int, src: int, arg_slots: int, locals: int) -> Seq<
    u64,
> {
    let b = s.len();
    Seq::new(
        (b + locals) as nat,
        |j: int|
            if j < b {
                s[j]
            } else if j - b >= start && j - b < start + arg_slots {
                s[src + j - b - start]
            } else if j == b {
                first
            } else {
                0u64
            },
    )
}

/// Number of captured values of a closure object (its slots after the function id).
pub open spec fn capture_count(gc: &Gc, c: GcRef) -> int {
    gc.slots_of(c).len() - 1
}

/// Result slots of a closure call: the low byte of `c`, or with flags 1 the value of
/// the register before the arguments (its low 16 bits).
pub open spec fn closure_ret_slots(inst: Instruction, stack: Seq<u64>, cbp: int) -> u16 {
    if inst.flags == 0 {
        call_ret_slots(inst) as u16
    } else {
        stack[cbp + inst.b - 1] as u16
    }
}

/// Call the closure in register `a` with `c >> 8` argument slots from register `b`.
/// A method closure (its function has receiver slots, and it captured a value)
/// gets its captured receiver in the first local and the arguments after the
/// receiver slots; another closure gets itself in the first local and the arguments
/// after it.
pub fn exec_call_closure(
    stack: &mut Vec<u64>,
    frames: &mut Vec<CallFrame>,
    inst: &Instruction,
    functions: &[FunctionDef],
    gc: &Gc,
) -> (r: ExecResult)
    requires
        inst.flags <= 1,
        fiber::frame_base(old(frames)@) + inst.a < old(stack)@.len(),
        inst.flags == 1 ==> inst.b >= 1 && fiber::frame_base(old(frames)@) + inst.b - 1 < old(stack)@.len(),
        old(stack)@.len() + 0x20000 <= usize::MAX,
        ({
            let c = old(stack)@[fiber::frame_base(old(frames)@) + inst.a];
            let f = closure_func(gc, c);
            &&& gc.valid(c)
            &&& gc.slots_of(c).len() >= 1
            &&& f < functions@.len()
            &&& functions@[f as int].local_slots >= 1
            &&& (if functions@[f as int].recv_slots > 0 && capture_count(gc, c) > 0 {
                functions@[f as int].recv_slots
            } else {
                1
            }) + call_arg_slots(*inst) <= functions@[f as int].local_slots
            &&& fiber::frame_base(old(frames)@) + inst.b + call_arg_slots(*inst) <= old(stack)@.len()
        }),
    ensures
        r == ExecResult::Return,
        ({
            let cbp = fiber::frame_base(old(frames)@);
            let c = old(stack)@[cbp + inst.a];
            let f = closure_func(gc, c);
            let func = functions@[f as int];
            let method = func.recv_slots > 0 && capture_count(gc, c) > 0;
            &&& final(stack)@ == closure_call_stack(
                old(stack)@,
                if method { gc.slots_of(c)[1] } else { c },
                if method { func.recv_slots as int } else { 1 },
                cbp + inst.b,
                call_arg_slots(*inst),
                func.local_slots as int,
            )
            &&& final(frames)@ == old(frames)@.push(
                CallFrame {
                    func_id: f,
                    pc: 0,
                    bp: old(stack)@.len() as usize,
                    ret_reg: inst.b,
                    ret_count: closure_ret_slots(*inst, old(stack)@, cbp),
                },
            )
        }),
{
    let caller_bp = if frames.len() == 0 { 0 } else { frames[frames.len() - 1].bp };
    assert(caller_bp == fiber::frame_base(frames@));
    let closure_ref = stack[caller_bp + inst.a as usize];
    let w = gc.read_slot(closure_ref, 0);
    let func_id = (w % 0x1_0000_0000) as u32;
    let (_, arg_slots, ret_static) = call_operands(inst);
    let arg_start = inst.b as usize;
    let ret_slots: u16 = if inst.flags == 0 {
        ret_static as u16
    } else {
        stack[caller_bp + arg_start - 1] as u16
    };
    let func = &functions[func_id as usize];
    let recv_slots = func.recv_slots as usize;
    let local_slots = func.local_slots as usize;
    let new_bp = stack.len();
    let ghost s0 = stack@;
    grow_to(stack, new_bp + local_slots);
    let method = recv_slots > 0 && gc.slot_count(closure_ref) > 1;
    let (first, start) = if method {
        (gc.read_slot(closure_ref, 1), recv_slots)
    } else {
        (closure_ref, 1usize)
    };
    stack.set(new_bp, first);
    let mut i: usize = 0;
    while i < arg_slots
        invariant
            s0.len() == new_bp,
            caller_bp + arg_start + arg_slots <= new_bp,
            start >= 1,
            start + arg_slots <= local_slots,
            new_bp + local_slots <= usize::MAX,
            0 <= i <= arg_slots,
            stack@.len() == new_bp + local_slots,
            forall|j: int|
                0 <= j < stack@.len() ==> #[trigger] stack@[j] == (if j < new_bp {
                    s0[j]
                } else if j - new_bp >= start && j - new_bp < start + i {
                    s0[caller_bp + arg_start + j - new_bp - start]
                } else if j == new_bp {
                    first
                } else {
                    0u64
                }),
        decreases arg_slots - i,
    {
        let v = stack[caller_bp + arg_start + i];
        stack.set(new_bp + start + i, v);
        i = i + 1;
    }
    assert(stack@ =~= closure_call_stack(s0, first, start as int, caller_bp + arg_start, arg_slots as int, local_slots as int));
    frames.push(CallFrame { func_id, pc: 0, bp: new_bp, ret_reg: inst.b, ret_count: ret_slots });
    ExecResult::Return
}

// ==================== Laws of the call protocol ====================

/// Deferred calls run newest first: on an error return, the calls to run are the
/// frame's entries at the top of the defer stack in reverse order.
pub proof fn lemma_defers_lifo(ds: Seq<DeferEntry>, d: usize)
    ensures
        top_run(ds, d) <= ds.len(),
        runnable(ds, d, true) == ds.subrange(ds.len() - top_run(ds, d), ds.len() as int).reverse(),
    decreases ds.len(),
{
    lemma_top_run_le(ds, d);
    if ds.len() > 0 && ds.last().frame_depth == d {
        let pre = ds.drop_last();
        lemma_defers_lifo(pre, d);
        let k = top_run(ds, d);
        assert(ds.subrange(ds.len() - k, ds.len() as int) =~= pre.subrange(pre.len() - top_run(pre, d), pre.len() as int).push(ds.last()));
        assert(ds.subrange(ds.len() - k, ds.len() as int).reverse() =~= seq![ds.last()] + pre.subrange(
            pre.len() - top_run(pre, d),
            pre.len() as int,
        ).reverse());
    } else {
        assert(ds.subrange(ds.len() - 0, ds.len() as int).reverse() =~= Seq::<DeferEntry>::empty());
    }
}

/// The deferred calls to run all belong to the returning frame, and an errdefer is
/// among them only on an error return.
pub proof fn lemma_runnable_entries(ds: Seq<DeferEntry>, d: usize, is_error_return: bool)
    ensures
        forall|i: int|
            0 <= i < runnable(ds, d, is_error_return).len() ==> (#[trigger] runnable(ds, d, is_error_return)[i]).frame_depth
                == d && (runnable(ds, d, is_error_return)[i].is_errdefer ==> is_error_return),
    decreases ds.len(),
{
    if ds.len() > 0 && ds.last().frame_depth == d {
        lemma_runnable_entries(ds.drop_last(), d, is_error_return);
        let rest = runnable(ds.drop_last(), d, is_error_return);
        if !(ds.last().is_errdefer && !is_error_return) {
            assert forall|i: int| 1 <= i < runnable(ds, d, is_error_return).len() implies runnable(ds, d, is_error_return)[i]
                == rest[i - 1] by {}
        }
    }
}

/// A call followed, once the callee has run, by a return without deferred calls: the
/// frames are those before the call, the caller's registers are as the call left
/// them, and from the call's register `b` on they hold the callee's results (as many
/// as the call asked for, at most as many as returned).
pub proof fn lemma_call_then_return(
    s0: Seq<u64>,
    f0: Seq<CallFrame>,
    call: Instruction,
    s2: Seq<u64>,
    ret: Instruction,
)
    requires
        f0.len() > 0,
        s2.len() <= usize::MAX,
        fiber::frame_base(f0) <= s0.len(),
        grow(s0, fiber::frame_base(f0) + call.b + call_ret_slots(call)).len() <= s2.len(),
        s2.subrange(0, grow(s0, fiber::frame_base(f0) + call.b + call_ret_slots(call)).len() as int) == grow(
            s0,
            fiber::frame_base(f0) + call.b + call_ret_slots(call),
        ),
    ensures
        ({
            let cbp = fiber::frame_base(f0);
            let s1 = grow(s0, cbp + call.b + call_ret_slots(call));
            let bp = s1.len();
            let f1 = f0.push(
                CallFrame {
                    func_id: call_func_id(call),
                    pc: 0,
                    bp: bp as usize,
                    ret_reg: call.b,
                    ret_count: call_ret_slots(call) as u16,
                },
            );
            let n = write_count(call_ret_slots(call), ret.b as int);
            let vals = s2.subrange(bp + ret.a, bp + ret.a + ret.b).subrange(0, n);
            &&& pop_frames(f1) == f0
            &&& bp + ret.a + ret.b <= s2.len() ==> returned_stack(pop_stack(s2, f1), pop_frames(f1), vals, call.b as int, call_ret_slots(call))
                == Seq::new(
                s1.len(),
                |j: int|
                    if cbp + call.b <= j < cbp + call.b + n {
                        s2[bp + ret.a + j - (cbp + call.b)]
                    } else {
                        s1[j]
                    },
            )
        }),
{
    let cbp = fiber::frame_base(f0);
    let s1 = grow(s0, cbp + call.b + call_ret_slots(call));
    let bp = s1.len();
    let f1 = f0.push(
        CallFrame {
            func_id: call_func_id(call),
            pc: 0,
            bp: bp as usize,
            ret_reg: call.b,
            ret_count: call_ret_slots(call) as u16,
        },
    );
    assert(pop_frames(f1) == f0);
    assert(f1.last().bp == bp);
    if bp + ret.a + ret.b <= s2.len() {
        let n = write_count(call_ret_slots(call), ret.b as int);
        let vals = s2.subrange(bp + ret.a, bp + ret.a + ret.b).subrange(0, n);
        assert(pop_stack(s2, f1) == s1);
        assert(write_count(call_ret_slots(call), vals.len() as int) == n);
        assert(grow(s1, cbp + call.b + n) == s1);
        assert(returned_stack(s1, f0, vals, call.b as int, call_ret_slots(call)) =~= Seq::new(
            s1.len(),
            |j: int|
                if cbp + call.b <= j < cbp + call.b + n {
                    s2[bp + ret.a + j - (cbp + call.b)]
                } else {
                    s1[j]
                },
        ));
    }
}

} // verus!
