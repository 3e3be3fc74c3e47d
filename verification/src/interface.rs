//! Interface values: two stack slots.
//!
//! - Slot 0: `[itab_id:32 | value_meta:32]` (value_meta = meta_id:24 | value_kind:8)
//! - Slot 1: data, an immediate value or a heap reference.
//!
//! An interface is nil when its value kind is `Void`; a typed nil is not a nil interface.

use vstd::prelude::*;
use crate::value::{self, ValueKind, ValueMeta};

verus! {

/// Number of stack slots an interface occupies.
pub const SLOT_COUNT: usize = 2;

/// The packed first slot of an interface.
pub open spec fn spec_pack_slot0(itab_id: u32, meta_raw: u32) -> u64 {
    (itab_id as int * 0x1_0000_0000 + meta_raw as int) as u64
}

/// The itab id held in the high half of slot 0.
pub open spec fn spec_itab_id(slot0: u64) -> u32 {
    (slot0 / 0x1_0000_0000) as u32
}

/// The metadata word held in the low half of slot 0.
pub open spec fn spec_meta_raw(slot0: u64) -> u32 {
    (slot0 % 0x1_0000_0000) as u32
}

/// Pack slot 0 from an itab id and value metadata.
pub fn pack_slot0(itab_id: u32, value_meta: ValueMeta) -> (r: u64)
    ensures
        r == spec_pack_slot0(itab_id, value_meta.raw),
        r as int == itab_id as int * 0x1_0000_0000 + value_meta.raw as int,
{
    let raw = value_meta.to_raw();
    let r = ((itab_id as u64) << 32u64) | (raw as u64);
    assert(r as int == itab_id as int * 0x1_0000_0000 + raw as int) by (bit_vector)
        requires
            r == ((itab_id as u64) << 32u64) | (raw as u64),
    ;
    r
}

/// The itab id (high 32 bits of slot 0).
pub fn unpack_itab_id(slot0: u64) -> (r: u32)
    ensures
        r == spec_itab_id(slot0),
{
    let h = slot0 >> 32u64;
    assert(h == slot0 / 0x1_0000_0000 && h < 0x1_0000_0000) by (bit_vector)
        requires
            h == slot0 >> 32u64,
    ;
    h as u32
}

/// The value metadata (low 32 bits of slot 0).
pub fn unpack_value_meta(slot0: u64) -> (r: ValueMeta)
    ensures
        r.raw == spec_meta_raw(slot0),
{
    let low = slot0 & 0xFFFF_FFFF;
    assert(low == slot0 % 0x1_0000_0000 && low < 0x1_0000_0000) by (bit_vector)
        requires
            low == slot0 & 0xFFFF_FFFF,
    ;
    ValueMeta::from_raw(low as u32)
}

/// The value kind recorded in slot 0.
pub fn unpack_value_kind(slot0: u64) -> (r: ValueKind)
    ensures
        r == value::raw_kind(spec_meta_raw(slot0)),
{
    unpack_value_meta(slot0).value_kind()
}

/// Whether the interface is nil (its value kind is `Void`).
pub fn is_nil(slot0: u64) -> (r: bool)
    ensures
        r == (value::raw_kind(spec_meta_raw(slot0)) == ValueKind::Void),
{
    let vk = unpack_value_kind(slot0);
    match vk {
        ValueKind::Void => true,
        _ => false,
    }
}

/// Whether slot 1 holds a heap reference.
pub fn data_is_gc_ref(slot0: u64) -> (r: bool)
    ensures
        r == value::spec_may_contain_gc_refs(value::raw_kind(spec_meta_raw(slot0))),
{
    let vk = unpack_value_kind(slot0);
    vk.may_contain_gc_refs()
}

/// Unpacking a packed slot 0 gives back the itab id and the metadata word.
pub proof fn lemma_pack_unpack(itab_id: u32, meta_raw: u32)
    ensures
        spec_itab_id(spec_pack_slot0(itab_id, meta_raw)) == itab_id,
        spec_meta_raw(spec_pack_slot0(itab_id, meta_raw)) == meta_raw,
{
    let p = itab_id as int * 0x1_0000_0000 + meta_raw as int;
    assert(p < 0x1_0000_0000_0000_0000) by (nonlinear_arith)
        requires
            itab_id < 0x1_0000_0000,
            meta_raw < 0x1_0000_0000,
            p == itab_id as int * 0x1_0000_0000 + meta_raw as int,
    ;
    assert(p / 0x1_0000_0000 == itab_id as int) by (nonlinear_arith)
        requires
            0 <= meta_raw < 0x1_0000_0000,
            p == itab_id as int * 0x1_0000_0000 + meta_raw as int,
    ;
    assert(p % 0x1_0000_0000 == meta_raw as int) by (nonlinear_arith)
        requires
            0 <= meta_raw < 0x1_0000_0000,
            p == itab_id as int * 0x1_0000_0000 + meta_raw as int,
    ;
}

} // verus!
