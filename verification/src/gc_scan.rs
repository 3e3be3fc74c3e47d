//! Marking for the garbage collector: which slots hold references, in structs,
//! arrays, globals and goroutine state, and which references the roots mark gray.
//!
//! A slot marked `GcRef` holds a reference (0 is nil); a slot marked `Interface0`
//! is the first slot of an interface, whose second slot holds a reference when the
//! first says so.

use vstd::prelude::*;
use crate::bytecode::FunctionDef;
use crate::fiber::{DeferEntry, Fiber};
use crate::heap::{self, Gc, GcRef};
use crate::interface;
use crate::value::{self, SlotType};

verus! {

/// Layout of a struct type: how the collector treats each of its slots.
pub struct StructMeta {
    pub slot_types: Vec<SlotType>,
}

/// A global variable: its number of slots and their slot types.
pub struct GlobalDef {
    pub slots: u16,
    pub slot_types: Vec<SlotType>,
}

/// What root scanning reads of a loaded module: its functions and globals.
pub struct Module {
    pub functions: Vec<FunctionDef>,
    pub globals: Vec<GlobalDef>,
}

/// The references held in `slots` from position `i` on, as the slot types say; slot
/// types past the end of `slots` are not read.
pub open spec fn slot_refs(slots: Seq<u64>, types: Seq<SlotType>, i: int) -> Seq<GcRef>
    decreases types.len() + 1 - i,
{
    if i < 0 || i >= types.len() || i >= slots.len() {
        Seq::empty()
    } else {
        match types[i] {
            SlotType::GcRef => (if slots[i] != 0 {
                seq![slots[i]]
            } else {
                Seq::empty()
            }) + slot_refs(slots, types, i + 1),
            SlotType::Interface0 => (if i + 1 < slots.len() && value::spec_may_contain_gc_refs(
                value::raw_kind(interface::spec_meta_raw(slots[i])),
            ) && slots[i + 1] != 0 {
                seq![slots[i + 1]]
            } else {
                Seq::empty()
            }) + slot_refs(slots, types, i + 2),
            _ => slot_refs(slots, types, i + 1),
        }
    }
}

/// Mark gray the references held in `slots[lo..hi]`, as `types` says.
pub fn scan_slots_by_types(gc: &mut Gc, slots: &[u64], lo: usize, hi: usize, types: &[SlotType])
    requires
        lo <= hi <= slots@.len(),
    ensures
        final(gc).gray() == old(gc).gray() + slot_refs(slots@.subrange(lo as int, hi as int), types@, 0),
        final(gc).same_objects(old(gc)),
{
    let ghost s = slots@.subrange(lo as int, hi as int);
    let n = hi - lo;
    let mut i: usize = 0;
    while i < types.len() && i < n
        invariant
            s == slots@.subrange(lo as int, hi as int),
            n == hi - lo,
            lo <= hi <= slots@.len(),
            old(gc).gray() + slot_refs(s, types@, 0) == gc.gray() + slot_refs(s, types@, i as int),
            gc.same_objects(old(gc)),
            i <= types@.len() + 1,
        decreases types.len() + 1 - i,
    {
        let ghost g0 = gc.gray();
        let ghost before = *gc;
        match types[i] {
            SlotType::GcRef => {
                let child = slots[lo + i];
                if child != 0 {
                    gc.mark_gray(child);
                    proof {
                        Gc::lemma_same_objects_trans(old(gc), &before, gc);
                    }
                    assert(g0 + slot_refs(s, types@, i as int) == gc.gray() + slot_refs(s, types@, i + 1));
                } else {
                    assert(slot_refs(s, types@, i as int) =~= slot_refs(s, types@, i + 1));
                }
                i = i + 1;
            },
            SlotType::Interface0 => {
                let header = slots[lo + i];
                if i + 1 < n {
                    if interface::data_is_gc_ref(header) {
                        let child = slots[lo + i + 1];
                        if child != 0 {
                            gc.mark_gray(child);
                            proof {
                                Gc::lemma_same_objects_trans(old(gc), &before, gc);
                            }
                            assert(g0 + slot_refs(s, types@, i as int) == gc.gray() + slot_refs(s, types@, i + 2));
                        } else {
                            assert(slot_refs(s, types@, i as int) =~= slot_refs(s, types@, i + 2));
                        }
                    } else {
                        assert(slot_refs(s, types@, i as int) =~= slot_refs(s, types@, i + 2));
                    }
                    i = i + 2;
                } else {
                    assert(slot_refs(s, types@, i as int) =~= slot_refs(s, types@, i + 2));
                    assert(slot_refs(s, types@, i + 2) =~= Seq::<GcRef>::empty());
                    assert(slot_refs(s, types@, n as int) =~= Seq::<GcRef>::empty());
                    i = n;
                }
            },
            _ => {
                i = i + 1;
            },
        }
    }
    assert(slot_refs(s, types@, i as int) =~= Seq::<GcRef>::empty());
    assert(gc.gray() =~= old(gc).gray() + slot_refs(s, types@, 0));
}

/// The slots of the object `r`, collected for scanning.
fn object_slots(gc: &Gc, r: GcRef) -> (v: Vec<u64>)
    requires
        gc.valid(r),
    ensures
        v@ == gc.slots_of(r),
{
    let mut out: Vec<u64> = Vec::new();
    let n = gc.slot_count(r);
    let mut i: usize = 0;
    while i < n
        invariant
            gc.valid(r),
            n == gc.slots_of(r).len(),
            0 <= i <= n,
            out@ == gc.slots_of(r).subrange(0, i as int),
        decreases n - i,
    {
        out.push(gc.read_slot(r, i));
        assert(out@ =~= gc.slots_of(r).subrange(0, i + 1));
        i = i + 1;
    }
    assert(out@ =~= gc.slots_of(r));
    out
}

/// The references a struct object holds, as the layout of its meta id says; none
/// when the meta id is unknown.
pub open spec fn struct_refs(gc: &Gc, obj: GcRef, meta_id: int, metas: Seq<StructMeta>) -> Seq<GcRef> {
    if meta_id >= metas.len() {
        Seq::empty()
    } else {
        slot_refs(gc.slots_of(obj), metas[meta_id].slot_types@, 0)
    }
}

/// Mark gray the references held by the struct object `obj`.
pub fn scan_struct(gc: &mut Gc, obj: GcRef, meta_id: usize, struct_metas: &[StructMeta])
    requires
        old(gc).valid(obj),
    ensures
        final(gc).gray() == old(gc).gray() + struct_refs(old(gc), obj, meta_id as int, struct_metas@),
        final(gc).same_objects(old(gc)),
{
    if meta_id >= struct_metas.len() {
        assert(old(gc).gray() + Seq::<GcRef>::empty() =~= old(gc).gray());
        return;
    }
    let slots = object_slots(gc, obj);
    let meta = &struct_metas[meta_id];
    scan_slots_by_types(gc, slots.as_slice(), 0, slots.len(), meta.slot_types.as_slice());
    assert(slots@.subrange(0, slots@.len() as int) == slots@);
}

/// The references an array object holds: none when its elements cannot hold
/// references, else every non-nil element slot.
pub open spec fn array_refs(gc: &Gc, obj: GcRef) -> Seq<GcRef> {
    if !value::spec_may_contain_gc_refs(value::raw_kind(heap::array_elem_meta(gc, obj).raw)) {
        Seq::empty()
    } else {
        let n = heap::array_len(gc, obj) * (heap::array_elem_bytes(gc, obj) / 8);
        gc.slots_of(obj).subrange(heap::HEADER_SLOTS as int, heap::HEADER_SLOTS + n).filter(|x: u64| x != 0)
    }
}

/// An array object whose elements fill whole slots, all present.
pub open spec fn array_scannable(gc: &Gc, obj: GcRef) -> bool {
    &&& heap::is_array(gc, obj)
    &&& value::spec_may_contain_gc_refs(value::raw_kind(heap::array_elem_meta(gc, obj).raw)) ==> {
        &&& heap::array_elem_bytes(gc, obj) % 8 == 0
        &&& heap::HEADER_SLOTS + heap::array_len(gc, obj) * (heap::array_elem_bytes(gc, obj) / 8) <= gc.slots_of(
            obj,
        ).len()
    }
}

/// Mark gray the non-nil elements of an array whose elements may hold references.
pub fn scan_array(gc: &mut Gc, obj: GcRef)
    requires
        array_scannable(old(gc), obj),
    ensures
        final(gc).gray() == old(gc).gray() + array_refs(old(gc), obj),
        final(gc).same_objects(old(gc)),
{
    let elem_kind = heap::elem_kind(gc, obj);
    if !elem_kind.may_contain_gc_refs() {
        assert(old(gc).gray() + Seq::<GcRef>::empty() =~= old(gc).gray());
        return;
    }
    let len = heap::len(gc, obj);
    let elem_bytes = heap::elem_bytes(gc, obj);
    let elem_slots = elem_bytes / 8;
    let ghost g0 = *gc;
    let ghost data = g0.slots_of(obj).subrange(heap::HEADER_SLOTS as int, heap::HEADER_SLOTS + len * elem_slots);
    let n = gc.slot_count(obj);
    assert(heap::HEADER_SLOTS + len * elem_slots <= n);
    let total: usize = if elem_slots == 0 {
        assert(len * elem_slots == 0) by (nonlinear_arith)
            requires
                elem_slots == 0,
        ;
        0
    } else {
        assert(len <= len * elem_slots) by (nonlinear_arith)
            requires
                elem_slots >= 1,
        ;
        assert(len <= n);
        let l = len as usize;
        assert(l == len);
        l * elem_slots
    };
    assert(total == len * elem_slots);
    let mut k: usize = 0;
    while k < total
        invariant
            g0.valid(obj),
            n == g0.slots_of(obj).len(),
            total == len * elem_slots,
            heap::HEADER_SLOTS + total <= g0.slots_of(obj).len(),
            data == g0.slots_of(obj).subrange(heap::HEADER_SLOTS as int, heap::HEADER_SLOTS + total),
            0 <= k <= total,
            gc.same_objects(&g0),
            gc.gray() == g0.gray() + data.subrange(0, k as int).filter(|x: u64| x != 0),
        decreases total - k,
    {
        let child = gc.read_slot(obj, heap::HEADER_SLOTS + k);
        assert(child == data[k as int]);
        proof {
            reveal(Seq::filter);
            assert(data.subrange(0, k + 1).drop_last() == data.subrange(0, k as int));
            assert(data.subrange(0, k + 1).last() == child);
        }
        if child != 0 {
            let ghost before = *gc;
            gc.mark_gray(child);
            proof {
                Gc::lemma_same_objects_trans(&g0, &before, gc);
            }
        }
        k = k + 1;
    }
    assert(data.subrange(0, total as int) == data);
}

/// The references a deferred call holds: its closure and its argument object.
pub open spec fn entry_refs(e: DeferEntry) -> Seq<GcRef> {
    (if e.closure != 0 {
        seq![e.closure]
    } else {
        Seq::empty()
    }) + (if e.args != 0 {
        seq![e.args]
    } else {
        Seq::empty()
    })
}

/// Mark gray the closure and argument object of a deferred call.
pub fn scan_defer_entry(gc: &mut Gc, entry: &DeferEntry)
    ensures
        final(gc).gray() == old(gc).gray() + entry_refs(*entry),
        final(gc).same_objects(old(gc)),
{
    let ghost g0 = *gc;
    if entry.closure != 0 {
        gc.mark_gray(entry.closure);
    }
    let ghost g1 = *gc;
    if entry.args != 0 {
        gc.mark_gray(entry.args);
    }
    proof {
        if entry.closure != 0 && entry.args != 0 {
            Gc::lemma_same_objects_trans(&g0, &g1, gc);
        }
    }
    assert(gc.gray() =~= g0.gray() + entry_refs(*entry));
}

// ==================== Roots ====================

/// The references held by the globals, the definitions from `k` on covering the
/// globals from `idx` on, each the next `slots` of them.
pub open spec fn globals_refs(globals: Seq<u64>, defs: Seq<GlobalDef>, k: int, idx: int) -> Seq<GcRef>
    decreases defs.len() - k,
{
    if k < 0 || k >= defs.len() {
        Seq::empty()
    } else {
        slot_refs(globals.subrange(idx, idx + defs[k].slots), defs[k].slot_types@, 0) + globals_refs(
            globals,
            defs,
            k + 1,
            idx + defs[k].slots,
        )
    }
}

/// The definitions from `k` on fit in the globals from `idx` on.
pub open spec fn globals_fit(defs: Seq<GlobalDef>, k: int, idx: int, len: int) -> bool
    decreases defs.len() - k,
{
    if k < 0 || k >= defs.len() {
        true
    } else {
        idx + defs[k].slots <= len && globals_fit(defs, k + 1, idx + defs[k].slots, len)
    }
}

/// Mark gray the references held by the globals.
pub fn scan_globals(gc: &mut Gc, globals: &[u64], global_defs: &[GlobalDef])
    requires
        globals_fit(global_defs@, 0, 0, globals@.len() as int),
    ensures
        final(gc).gray() == old(gc).gray() + globals_refs(globals@, global_defs@, 0, 0),
        final(gc).same_objects(old(gc)),
{
    let mut idx: usize = 0;
    let mut k: usize = 0;
    while k < global_defs.len()
        invariant
            0 <= k <= global_defs@.len(),
            idx <= globals@.len(),
            globals_fit(global_defs@, k as int, idx as int, globals@.len() as int),
            old(gc).gray() + globals_refs(globals@, global_defs@, 0, 0) == gc.gray() + globals_refs(
                globals@,
                global_defs@,
                k as int,
                idx as int,
            ),
            gc.same_objects(old(gc)),
        decreases global_defs.len() - k,
    {
        let def = &global_defs[k];
        let glen = globals.len();
        assert(def == global_defs@[k as int]);
        assert(idx + def.slots <= glen);
        let ghost before = *gc;
        scan_slots_by_types(gc, globals, idx, idx + def.slots as usize, def.slot_types.as_slice());
        proof {
            Gc::lemma_same_objects_trans(old(gc), &before, gc);
        }
        idx = idx + def.slots as usize;
        k = k + 1;
    }
    assert(gc.gray() + Seq::<GcRef>::empty() =~= gc.gray());
}

/// The references held in the registers of a frame and above, as the frame's
/// function describes its slots.
pub open spec fn frame_refs(stack: Seq<u64>, f: crate::fiber::CallFrame, functions: Seq<FunctionDef>) -> Seq<GcRef> {
    slot_refs(stack.subrange(f.bp as int, stack.len() as int), functions[f.func_id as int].slot_types@, 0)
}

/// The references held by the frames from `k` on.
pub open spec fn frames_refs(stack: Seq<u64>, frames: Seq<crate::fiber::CallFrame>, functions: Seq<FunctionDef>, k: int) -> Seq<
    GcRef,
>
    decreases frames.len() - k,
{
    if k < 0 || k >= frames.len() {
        Seq::empty()
    } else {
        frame_refs(stack, frames[k], functions) + frames_refs(stack, frames, functions, k + 1)
    }
}

/// The references held by the deferred calls from `k` on.
pub open spec fn entries_refs(es: Seq<DeferEntry>, k: int) -> Seq<GcRef>
    decreases es.len() - k,
{
    if k < 0 || k >= es.len() {
        Seq::empty()
    } else {
        entry_refs(es[k]) + entries_refs(es, k + 1)
    }
}

/// The references a goroutine holds: in its frames, its deferred calls, a return in
/// progress (pending deferred calls and saved results) and its panic value.
pub open spec fn fiber_refs(f: Fiber, functions: Seq<FunctionDef>) -> Seq<GcRef> {
    frames_refs(f.stack@, f.frames@, functions, 0) + entries_refs(f.defer_stack@, 0) + (match f.defer_state {
        Some(st) => entries_refs(st.pending@, 0) + slot_refs(st.ret_vals@, st.ret_slot_types@, 0),
        None => Seq::empty(),
    }) + (match f.panic_value {
        Some(v) => if v != 0 {
            seq![v]
        } else {
            Seq::empty()
        },
        None => Seq::empty(),
    })
}

/// Each frame names a known function and sits within the stack.
pub open spec fn fiber_scannable(f: Fiber, functions: Seq<FunctionDef>) -> bool {
    forall|i: int|
        0 <= i < f.frames@.len() ==> (#[trigger] f.frames@[i]).func_id < functions.len() && f.frames@[i].bp
            <= f.stack@.len()
}

/// The references held by the goroutines from `k` on.
pub open spec fn fibers_refs(fibers: Seq<Fiber>, functions: Seq<FunctionDef>, k: int) -> Seq<GcRef>
    decreases fibers.len() - k,
{
    if k < 0 || k >= fibers.len() {
        Seq::empty()
    } else {
        fiber_refs(fibers[k], functions) + fibers_refs(fibers, functions, k + 1)
    }
}

fn scan_entries(gc: &mut Gc, entries: &Vec<DeferEntry>)
    ensures
        final(gc).gray() == old(gc).gray() + entries_refs(entries@, 0),
        final(gc).same_objects(old(gc)),
{
    let mut k: usize = 0;
    while k < entries.len()
        invariant
            0 <= k <= entries@.len(),
            old(gc).gray() + entries_refs(entries@, 0) == gc.gray() + entries_refs(entries@, k as int),
            gc.same_objects(old(gc)),
        decreases entries.len() - k,
    {
        let ghost before = *gc;
        scan_defer_entry(gc, &entries[k]);
        proof {
            Gc::lemma_same_objects_trans(old(gc), &before, gc);
        }
        k = k + 1;
    }
    assert(gc.gray() + Seq::<GcRef>::empty() =~= gc.gray());
}

/// Mark gray the references a goroutine holds.
pub fn scan_fiber(gc: &mut Gc, fiber: &Fiber, functions: &[FunctionDef])
    requires
        fiber_scannable(*fiber, functions@),
    ensures
        final(gc).gray() == old(gc).gray() + fiber_refs(*fiber, functions@),
        final(gc).same_objects(old(gc)),
{
    let mut k: usize = 0;
    while k < fiber.frames.len()
        invariant
            fiber_scannable(*fiber, functions@),
            0 <= k <= fiber.frames@.len(),
            old(gc).gray() + frames_refs(fiber.stack@, fiber.frames@, functions@, 0) == gc.gray() + frames_refs(
                fiber.stack@,
                fiber.frames@,
                functions@,
                k as int,
            ),
            gc.same_objects(old(gc)),
        decreases fiber.frames.len() - k,
    {
        let frame = &fiber.frames[k];
        let func = &functions[frame.func_id as usize];
        let ghost before = *gc;
        scan_slots_by_types(gc, fiber.stack.as_slice(), frame.bp, fiber.stack.len(), func.slot_types.as_slice());
        proof {
            Gc::lemma_same_objects_trans(old(gc), &before, gc);
        }
        k = k + 1;
    }
    let ghost g1 = *gc;
    scan_entries(gc, &fiber.defer_stack);
    let ghost g2 = *gc;
    match &fiber.defer_state {
        Some(state) => {
            scan_entries(gc, &state.pending);
            let ghost g3 = *gc;
            scan_slots_by_types(gc, state.ret_vals.as_slice(), 0, state.ret_vals.len(), state.ret_slot_types.as_slice());
            proof {
                assert(state.ret_vals@.subrange(0, state.ret_vals@.len() as int) == state.ret_vals@);
                Gc::lemma_same_objects_trans(&g2, &g3, gc);
            }
        },
        None => {},
    }
    let ghost g4 = *gc;
    match fiber.panic_value {
        Some(v) => {
            if v != 0 {
                gc.mark_gray(v);
            }
        },
        None => {},
    }
    proof {
        Gc::lemma_same_objects_trans(old(gc), &g1, &g2);
        Gc::lemma_same_objects_trans(old(gc), &g2, &g4);
        if gc.gray() != g4.gray() {
            Gc::lemma_same_objects_trans(old(gc), &g4, gc);
        }
        assert(g1.gray() + Seq::<GcRef>::empty() =~= g1.gray());
    }
    assert(gc.gray() =~= old(gc).gray() + fiber_refs(*fiber, functions@));
}

/// Mark gray the references held by each goroutine.
pub fn scan_fibers(gc: &mut Gc, fibers: &[Fiber], functions: &[FunctionDef])
    requires
        forall|i: int| 0 <= i < fibers@.len() ==> fiber_scannable(#[trigger] fibers@[i], functions@),
    ensures
        final(gc).gray() == old(gc).gray() + fibers_refs(fibers@, functions@, 0),
        final(gc).same_objects(old(gc)),
{
    let mut k: usize = 0;
    while k < fibers.len()
        invariant
            forall|i: int| 0 <= i < fibers@.len() ==> fiber_scannable(#[trigger] fibers@[i], functions@),
            0 <= k <= fibers@.len(),
            old(gc).gray() + fibers_refs(fibers@, functions@, 0) == gc.gray() + fibers_refs(fibers@, functions@, k as int),
            gc.same_objects(old(gc)),
        decreases fibers.len() - k,
    {
        let ghost before = *gc;
        scan_fiber(gc, &fibers[k], functions);
        proof {
            Gc::lemma_same_objects_trans(old(gc), &before, gc);
        }
        k = k + 1;
    }
    assert(gc.gray() + Seq::<GcRef>::empty() =~= gc.gray());
}

/// The roots of the collector: the globals, then the goroutines, then the goroutines
/// that run calls from compiled code; nothing without a loaded module.
pub open spec fn roots_refs(globals: Seq<u64>, module: Option<Module>, fibers: Seq<Fiber>, trampolines: Seq<Fiber>) -> Seq<
    GcRef,
> {
    match module {
        Some(m) => globals_refs(globals, m.globals@, 0, 0) + fibers_refs(fibers, m.functions@, 0) + fibers_refs(
            trampolines,
            m.functions@,
            0,
        ),
        None => Seq::empty(),
    }
}

/// Mark gray every root: the references held by the globals and by the goroutines.
pub fn scan_roots(
    gc: &mut Gc,
    globals: &[u64],
    module: &Option<Module>,
    fibers: &[Fiber],
    trampoline_fibers: &[Fiber],
)
    requires
        module matches Some(m) ==> {
            &&& globals_fit(m.globals@, 0, 0, globals@.len() as int)
            &&& forall|i: int| 0 <= i < fibers@.len() ==> fiber_scannable(#[trigger] fibers@[i], m.functions@)
            &&& forall|i: int| 0 <= i < trampoline_fibers@.len() ==> fiber_scannable(#[trigger] trampoline_fibers@[i], m.functions@)
        },
    ensures
        final(gc).gray() == old(gc).gray() + roots_refs(globals@, *module, fibers@, trampoline_fibers@),
        final(gc).same_objects(old(gc)),
{
    match module {
        Some(m) => {
            scan_globals(gc, globals, m.globals.as_slice());
            let ghost g1 = *gc;
            scan_fibers(gc, fibers, m.functions.as_slice());
            let ghost g2 = *gc;
            scan_fibers(gc, trampoline_fibers, m.functions.as_slice());
            proof {
                Gc::lemma_same_objects_trans(old(gc), &g1, &g2);
                Gc::lemma_same_objects_trans(old(gc), &g2, gc);
            }
            assert(gc.gray() =~= old(gc).gray() + roots_refs(globals@, *module, fibers@, trampoline_fibers@));
        },
        None => {
            assert(old(gc).gray() + Seq::<GcRef>::empty() =~= old(gc).gray());
        },
    }
}

} // verus!
