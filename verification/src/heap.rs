//! The garbage-collected heap as the interpreter sees it: objects of 64-bit slots,
//! each with its value metadata, addressed by non-zero references; and the array
//! object layout on top of it.
//!
//! Array layout: slot 0 holds the length, slot 1 the element metadata (low 32
//! bits) and the element size in bytes (high 32 bits); the elements follow.

use vstd::prelude::*;
use crate::value::{self, ValueKind, ValueMeta};

verus! {

/// Reference to a heap object; 0 is nil.
pub type GcRef = u64;

/// A heap object: its metadata and its slots.
pub struct GcObject {
    pub meta: ValueMeta,
    pub slots: Vec<u64>,
}

/// The heap, and the references marked gray by the collector.
pub struct Gc {
    objects: Vec<GcObject>,
    gray: Vec<GcRef>,
}

/// Number of header slots of an array object.
pub const HEADER_SLOTS: usize = 2;

impl Gc {
    /// Number of objects allocated; the references are `1 ..= count`.
    pub closed spec fn count(&self) -> nat {
        self.objects@.len()
    }

    /// Slots of the object `r`.
    pub closed spec fn slots_of(&self, r: GcRef) -> Seq<u64> {
        self.objects@[r - 1].slots@
    }

    /// Metadata of the object `r`.
    pub closed spec fn meta_of(&self, r: GcRef) -> ValueMeta {
        self.objects@[r - 1].meta
    }

    /// References marked gray, in marking order.
    pub closed spec fn gray(&self) -> Seq<GcRef> {
        self.gray@
    }

    /// `r` names an object of this heap.
    pub open spec fn valid(&self, r: GcRef) -> bool {
        1 <= r <= self.count()
    }

    /// Same objects as `other`, but for object `r`, whose metadata is kept too.
    pub open spec fn same_except(&self, other: &Gc, r: GcRef) -> bool {
        &&& self.count() == other.count()
        &&& self.meta_of(r) == other.meta_of(r)
        &&& forall|k: GcRef| #[trigger] self.valid(k) && k != r ==> self.slots_of(k) == other.slots_of(k)
                && self.meta_of(k) == other.meta_of(k)
    }

    /// `other` with one more object after its own.
    pub open spec fn extends(&self, other: &Gc) -> bool {
        &&& self.count() == other.count() + 1
        &&& forall|k: GcRef| #[trigger] other.valid(k) ==> self.slots_of(k) == other.slots_of(k)
                && self.meta_of(k) == other.meta_of(k)
    }

    /// Same objects as `other`, with the same slots and metadata.
    pub open spec fn same_objects(&self, other: &Gc) -> bool {
        &&& self.count() == other.count()
        &&& forall|k: GcRef| #[trigger] other.valid(k) ==> self.slots_of(k) == other.slots_of(k)
                && self.meta_of(k) == other.meta_of(k)
    }

    /// Keeping the objects twice keeps them.
    pub proof fn lemma_same_objects_trans(a: &Gc, b: &Gc, c: &Gc)
        requires
            b.same_objects(a),
            c.same_objects(b),
        ensures
            c.same_objects(a),
    {
        assert forall|k: GcRef| #[trigger] a.valid(k) implies c.slots_of(k) == a.slots_of(k)
            && c.meta_of(k) == a.meta_of(k) by {
            assert(b.valid(k));
        }
    }

    /// Changing one object twice changes only that object.
    pub proof fn lemma_same_except_trans(a: &Gc, b: &Gc, c: &Gc, r: GcRef)
        requires
            b.same_except(a, r),
            c.same_except(b, r),
        ensures
            c.same_except(a, r),
    {
        assert forall|k: GcRef| #[trigger] c.valid(k) && k != r implies c.slots_of(k) == a.slots_of(k)
            && c.meta_of(k) == a.meta_of(k) by {
            assert(b.valid(k));
        }
    }

    /// Changing the newest object keeps the heap an extension of the older one.
    pub proof fn lemma_extends_then_change(a: &Gc, b: &Gc, c: &Gc, r: GcRef)
        requires
            b.extends(a),
            r == b.count(),
            c.same_except(b, r),
        ensures
            c.extends(a),
    {
        assert forall|k: GcRef| #[trigger] a.valid(k) implies c.slots_of(k) == a.slots_of(k)
            && c.meta_of(k) == a.meta_of(k) by {
            assert(b.valid(k));
            assert(c.valid(k));
        }
    }

    /// An empty heap.
    pub fn new() -> (r: Self)
        ensures
            r.count() == 0,
            r.gray().len() == 0,
    {
        Gc { objects: Vec::new(), gray: Vec::new() }
    }

    /// Allocate an object of `slots` zero slots.
    pub fn alloc_object(&mut self, meta: ValueMeta, slots: u16) -> (r: GcRef)
        requires
            old(self).count() < u64::MAX,
        ensures
            r == old(self).count() + 1,
            final(self).extends(old(self)),
            final(self).meta_of(r) == meta,
            final(self).slots_of(r) == Seq::new(slots as nat, |i: int| 0u64),
            final(self).gray() == old(self).gray(),
    {
        let mut data: Vec<u64> = Vec::new();
        let mut i: u16 = 0;
        while i < slots
            invariant
                i <= slots,
                data@ == Seq::new(i as nat, |j: int| 0u64),
            decreases slots - i,
        {
            data.push(0);
            i = i + 1;
            assert(data@ =~= Seq::new(i as nat, |j: int| 0u64));
        }
        let r = self.objects.len() as u64 + 1;
        self.objects.push(GcObject { meta, slots: data });
        r
    }

    /// Slot `i` of object `r`.
    pub fn read_slot(&self, r: GcRef, i: usize) -> (v: u64)
        requires
            self.valid(r),
            i < self.slots_of(r).len(),
        ensures
            v == self.slots_of(r)[i as int],
    {
        let n = self.objects.len();
        let k: usize = (r - 1) as usize;
        assert(k < n);
        self.objects[k].slots[i]
    }

    /// Set slot `i` of object `r` to `v`.
    pub fn write_slot(&mut self, r: GcRef, i: usize, v: u64)
        requires
            old(self).valid(r),
            i < old(self).slots_of(r).len(),
        ensures
            final(self).same_except(old(self), r),
            final(self).slots_of(r) == old(self).slots_of(r).update(i as int, v),
            final(self).gray() == old(self).gray(),
    {
        let n = self.objects.len();
        let k: usize = (r - 1) as usize;
        assert(k < n);
        let mut obj = self.objects.remove(k);
        obj.slots.set(i, v);
        self.objects.insert(k, obj);
    }

    /// Number of slots of object `r`.
    pub fn slot_count(&self, r: GcRef) -> (n: usize)
        requires
            self.valid(r),
        ensures
            n == self.slots_of(r).len(),
    {
        let n = self.objects.len();
        let k: usize = (r - 1) as usize;
        assert(k < n);
        self.objects[k].slots.len()
    }

    /// Metadata of object `r`.
    pub fn header(&self, r: GcRef) -> (m: ValueMeta)
        requires
            self.valid(r),
        ensures
            m == self.meta_of(r),
    {
        let n = self.objects.len();
        let k: usize = (r - 1) as usize;
        assert(k < n);
        self.objects[k].meta
    }

    /// The references marked gray, in marking order.
    pub fn gray_list(&self) -> (r: Vec<GcRef>)
        ensures
            r@ == self.gray(),
    {
        let mut out: Vec<GcRef> = Vec::new();
        let mut i: usize = 0;
        while i < self.gray.len()
            invariant
                0 <= i <= self.gray@.len(),
                out@ == self.gray@.subrange(0, i as int),
            decreases self.gray.len() - i,
        {
            out.push(self.gray[i]);
            assert(out@ =~= self.gray@.subrange(0, i + 1));
            i = i + 1;
        }
        assert(out@ =~= self.gray@);
        out
    }

    /// Mark `r` gray: the collector will scan it.
    pub fn mark_gray(&mut self, r: GcRef)
        ensures
            final(self).same_objects(old(self)),
            final(self).gray() == old(self).gray().push(r),
    {
        self.gray.push(r);
    }
}

// ==================== Array objects ====================

/// An array object of `r`: at least the two header slots.
pub open spec fn is_array(gc: &Gc, r: GcRef) -> bool {
    gc.valid(r) && gc.slots_of(r).len() >= HEADER_SLOTS
}

/// Length recorded in an array header.
pub open spec fn array_len(gc: &Gc, r: GcRef) -> u64 {
    gc.slots_of(r)[0]
}

/// Element metadata recorded in an array header.
pub open spec fn array_elem_meta(gc: &Gc, r: GcRef) -> ValueMeta {
    ValueMeta { raw: (gc.slots_of(r)[1] % 0x1_0000_0000) as u32 }
}

/// Element size in bytes recorded in an array header.
pub open spec fn array_elem_bytes(gc: &Gc, r: GcRef) -> u32 {
    (gc.slots_of(r)[1] / 0x1_0000_0000) as u32
}

/// Allocate an array of `length` elements of `elem_slots` slots each: the object
/// gets `2 + length * elem_slots` slots (kept to 16 bits by the allocator), and its
/// header records the length, the element metadata and `elem_slots * 8` bytes.
pub fn create(gc: &mut Gc, elem_meta: ValueMeta, elem_slots: usize, length: usize) -> (r: GcRef)
    requires
        old(gc).count() < u64::MAX,
        HEADER_SLOTS + length * elem_slots <= usize::MAX,
        (HEADER_SLOTS + length * elem_slots) % 0x10000 >= HEADER_SLOTS,
        elem_slots * 8 <= usize::MAX,
    ensures
        r == old(gc).count() + 1,
        final(gc).extends(old(gc)),
        is_array(final(gc), r),
        final(gc).meta_of(r) == (ValueMeta { raw: value::kind_byte(ValueKind::Array) as u32 }),
        final(gc).slots_of(r).len() == (HEADER_SLOTS + length * elem_slots) % 0x10000,
        array_len(final(gc), r) == length,
        array_elem_meta(final(gc), r) == elem_meta,
        array_elem_bytes(final(gc), r) == (elem_slots * 8) % 0x1_0000_0000,
        array_elem_bytes(final(gc), r) % 8 == 0,
        elem_slots * 8 <= u32::MAX ==> array_elem_bytes(final(gc), r) == elem_slots * 8,
        forall|i: int| HEADER_SLOTS <= i < final(gc).slots_of(r).len() ==> final(gc).slots_of(r)[i] == 0,
        final(gc).gray() == old(gc).gray(),
{
    let total_slots = HEADER_SLOTS + length * elem_slots;
    let array_meta = ValueMeta::new(0, ValueKind::Array);
    let n: u16 = (total_slots % 0x10000) as u16;
    let arr = gc.alloc_object(array_meta, n);
    let ghost g1 = *gc;
    let elem_bytes: u64 = ((elem_slots * 8) as u64) % 0x1_0000_0000;
    let meta_raw: u64 = elem_meta.raw as u64;
    let word: u64 = meta_raw + elem_bytes * 0x1_0000_0000;
    gc.write_slot(arr, 0, length as u64);
    let ghost g2 = *gc;
    gc.write_slot(arr, 1, word);
    proof {
        Gc::lemma_same_except_trans(&g1, &g2, gc, arr);
        Gc::lemma_extends_then_change(old(gc), &g1, gc, arr);
        assert(word % 0x1_0000_0000 == meta_raw) by (nonlinear_arith)
            requires
                word == meta_raw + elem_bytes * 0x1_0000_0000,
                meta_raw < 0x1_0000_0000,
        ;
        assert(word / 0x1_0000_0000 == elem_bytes) by (nonlinear_arith)
            requires
                word == meta_raw + elem_bytes * 0x1_0000_0000,
                meta_raw < 0x1_0000_0000,
        ;
        vstd::arithmetic::div_mod::lemma_mod_mod((elem_slots * 8) as int, 8, 0x2000_0000);
        vstd::arithmetic::div_mod::lemma_mod_multiples_basic(elem_slots as int, 8);
        assert(8 * 0x2000_0000 == 0x1_0000_0000int);
    }
    arr
}

/// The two header slots of an array object, decoded.
pub struct ArrayHeader {
    pub len: u64,
    pub elem_meta: ValueMeta,
    pub elem_bytes: u32,
}

impl ArrayHeader {
    /// Decode the header of the array `arr`: slot 0 is the length, slot 1 holds the
    /// element metadata in its low 32 bits and the element size in bytes above them.
    pub fn read(gc: &Gc, arr: GcRef) -> (h: ArrayHeader)
        requires
            is_array(gc, arr),
        ensures
            h.len == array_len(gc, arr),
            h.elem_meta == array_elem_meta(gc, arr),
            h.elem_bytes == array_elem_bytes(gc, arr),
    {
        let len = gc.read_slot(arr, 0);
        let w = gc.read_slot(arr, 1);
        ArrayHeader {
            len,
            elem_meta: ValueMeta::from_raw((w % 0x1_0000_0000) as u32),
            elem_bytes: (w / 0x1_0000_0000) as u32,
        }
    }
}

/// Length of the array `arr`.
pub fn len(gc: &Gc, arr: GcRef) -> (r: u64)
    requires
        is_array(gc, arr),
    ensures
        r == array_len(gc, arr),
{
    ArrayHeader::read(gc, arr).len
}

/// Element metadata of the array `arr`.
pub fn elem_meta(gc: &Gc, arr: GcRef) -> (r: ValueMeta)
    requires
        is_array(gc, arr),
    ensures
        r == array_elem_meta(gc, arr),
{
    ArrayHeader::read(gc, arr).elem_meta
}

/// Element kind of the array `arr`.
pub fn elem_kind(gc: &Gc, arr: GcRef) -> (r: ValueKind)
    requires
        is_array(gc, arr),
    ensures
        r == value::raw_kind(array_elem_meta(gc, arr).raw),
{
    elem_meta(gc, arr).value_kind()
}

/// Meta id of the elements of the array `arr`.
pub fn elem_meta_id(gc: &Gc, arr: GcRef) -> (r: u32)
    requires
        is_array(gc, arr),
    ensures
        r == value::raw_meta_id(array_elem_meta(gc, arr).raw),
{
    elem_meta(gc, arr).meta_id()
}

/// Element size in bytes of the array `arr`.
pub fn elem_bytes(gc: &Gc, arr: GcRef) -> (r: usize)
    requires
        is_array(gc, arr),
    ensures
        r == array_elem_bytes(gc, arr),
{
    ArrayHeader::read(gc, arr).elem_bytes as usize
}

/// Data slot `offset` of the array `arr`.
pub fn get(gc: &Gc, arr: GcRef, offset: usize) -> (r: u64)
    requires
        is_array(gc, arr),
        HEADER_SLOTS + offset < gc.slots_of(arr).len(),
        HEADER_SLOTS + offset <= usize::MAX,
    ensures
        r == gc.slots_of(arr)[HEADER_SLOTS + offset],
{
    gc.read_slot(arr, HEADER_SLOTS + offset)
}

/// Set data slot `offset` of the array `arr` to `val`.
pub fn set(gc: &mut Gc, arr: GcRef, offset: usize, val: u64)
    requires
        is_array(old(gc), arr),
        HEADER_SLOTS + offset < old(gc).slots_of(arr).len(),
        HEADER_SLOTS + offset <= usize::MAX,
    ensures
        final(gc).same_except(old(gc), arr),
        final(gc).slots_of(arr) == old(gc).slots_of(arr).update(HEADER_SLOTS + offset, val),
        final(gc).gray() == old(gc).gray(),
{
    gc.write_slot(arr, HEADER_SLOTS + offset, val)
}

/// Copy data slots `offset ..` of the array `arr` into `dest`, one per slot of `dest`.
pub fn get_n(gc: &Gc, arr: GcRef, offset: usize, dest: &mut [u64])
    requires
        is_array(gc, arr),
        HEADER_SLOTS + offset + old(dest)@.len() <= gc.slots_of(arr).len(),
        HEADER_SLOTS + offset + old(dest)@.len() <= usize::MAX,
    ensures
        final(dest)@ == gc.slots_of(arr).subrange(
            HEADER_SLOTS + offset,
            HEADER_SLOTS + offset + old(dest)@.len(),
        ),
{
    let n = dest.len();
    let mut i: usize = 0;
    while i < n
        invariant
            is_array(gc, arr),
            n == dest@.len(),
            HEADER_SLOTS + offset + n <= gc.slots_of(arr).len(),
            HEADER_SLOTS + offset + n <= usize::MAX,
            0 <= i <= n,
            forall|j: int| 0 <= j < i ==> dest@[j] == gc.slots_of(arr)[HEADER_SLOTS + offset + j],
        decreases n - i,
    {
        let v = gc.read_slot(arr, HEADER_SLOTS + offset + i);
        dest[i] = v;
        i = i + 1;
    }
    assert(dest@ =~= gc.slots_of(arr).subrange(HEADER_SLOTS + offset, HEADER_SLOTS + offset + n));
}

/// Copy `src` into the data slots `offset ..` of the array `arr`.
pub fn set_n(gc: &mut Gc, arr: GcRef, offset: usize, src: &[u64])
    requires
        is_array(old(gc), arr),
        HEADER_SLOTS + offset + src@.len() <= old(gc).slots_of(arr).len(),
        HEADER_SLOTS + offset + src@.len() <= usize::MAX,
    ensures
        final(gc).same_except(old(gc), arr),
        final(gc).slots_of(arr).len() == old(gc).slots_of(arr).len(),
        forall|j: int| 0 <= j < final(gc).slots_of(arr).len() ==> final(gc).slots_of(arr)[j] == (
        if HEADER_SLOTS + offset <= j < HEADER_SLOTS + offset + src@.len() {
            src@[j - HEADER_SLOTS - offset]
        } else {
            old(gc).slots_of(arr)[j]
        }),
        final(gc).gray() == old(gc).gray(),
{
    let n = src.len();
    let mut i: usize = 0;
    while i < n
        invariant
            is_array(gc, arr),
            n == src@.len(),
            HEADER_SLOTS + offset + n <= old(gc).slots_of(arr).len(),
            HEADER_SLOTS + offset + n <= usize::MAX,
            0 <= i <= n,
            gc.same_except(old(gc), arr),
            gc.slots_of(arr).len() == old(gc).slots_of(arr).len(),
            forall|j: int| 0 <= j < gc.slots_of(arr).len() ==> gc.slots_of(arr)[j] == (
            if HEADER_SLOTS + offset <= j < HEADER_SLOTS + offset + i {
                src@[j - HEADER_SLOTS - offset]
            } else {
                old(gc).slots_of(arr)[j]
            }),
            gc.gray() == old(gc).gray(),
        decreases n - i,
    {
        let ghost before = *gc;
        gc.write_slot(arr, HEADER_SLOTS + offset + i, src[i]);
        proof {
            Gc::lemma_same_except_trans(old(gc), &before, gc, arr);
        }
        i = i + 1;
    }
}

/// Copy `slot_count` data slots of the array `src` from `src_offset` to the data
/// slots of the array `dst` from `dst_offset`. The two ranges may not overlap.
pub fn copy_range(gc: &mut Gc, src: GcRef, src_offset: usize, dst: GcRef, dst_offset: usize, slot_count: usize)
    requires
        is_array(old(gc), src),
        is_array(old(gc), dst),
        HEADER_SLOTS + src_offset + slot_count <= old(gc).slots_of(src).len(),
        HEADER_SLOTS + dst_offset + slot_count <= old(gc).slots_of(dst).len(),
        HEADER_SLOTS + src_offset + slot_count <= usize::MAX,
        HEADER_SLOTS + dst_offset + slot_count <= usize::MAX,
        src == dst ==> src_offset + slot_count <= dst_offset || dst_offset + slot_count <= src_offset,
    ensures
        final(gc).same_except(old(gc), dst),
        final(gc).slots_of(dst).len() == old(gc).slots_of(dst).len(),
        forall|j: int|
            0 <= j < final(gc).slots_of(dst).len() ==> final(gc).slots_of(dst)[j] == (if HEADER_SLOTS + dst_offset <= j
                < HEADER_SLOTS + dst_offset + slot_count {
                old(gc).slots_of(src)[j - dst_offset + src_offset]
            } else {
                old(gc).slots_of(dst)[j]
            }),
        final(gc).gray() == old(gc).gray(),
{
    let mut buf: Vec<u64> = Vec::new();
    let mut i: usize = 0;
    while i < slot_count
        invariant
            is_array(gc, src),
            HEADER_SLOTS + src_offset + slot_count <= gc.slots_of(src).len(),
            HEADER_SLOTS + src_offset + slot_count <= usize::MAX,
            0 <= i <= slot_count,
            buf@ == gc.slots_of(src).subrange(HEADER_SLOTS + src_offset, HEADER_SLOTS + src_offset + i),
        decreases slot_count - i,
    {
        buf.push(gc.read_slot(src, HEADER_SLOTS + src_offset + i));
        assert(buf@ =~= gc.slots_of(src).subrange(HEADER_SLOTS + src_offset, HEADER_SLOTS + src_offset + i + 1));
        i = i + 1;
    }
    set_n(gc, dst, dst_offset, buf.as_slice());
}

} // verus!
