//! Runtime value classification: `ValueKind`, `ValueMeta` and `SlotType`.

use vstd::prelude::*;

verus! {

/// Runtime type classification of a value, numbered in declaration order.
#[derive(Debug, Clone, Copy, PartialEq, Eq, Structural)]
pub enum ValueKind {
    Void,
    Bool,
    Int,
    Int8,
    Int16,
    Int32,
    Int64,
    Uint,
    Uint8,
    Uint16,
    Uint32,
    Uint64,
    Float32,
    Float64,
    FuncPtr,
    String,
    Array,
    Slice,
    MapKind,
    Channel,
    Closure,
    Struct,
    Pointer,
    Interface,
    Port,
}

/// How the garbage collector treats one 8-byte slot.
#[derive(Debug, Clone, Copy, PartialEq, Eq, Structural)]
pub enum SlotType {
    /// Plain data, never a reference.
    Value,
    /// A heap reference.
    GcRef,
    /// First slot of an interface: packed itab id and value metadata.
    Interface0,
    /// Second slot of an interface: data, a reference when slot 0 says so.
    Interface1,
}

/// Number of the last value kind.
pub const MAX_VALUE_KIND: u8 = 24;

/// The byte code of a value kind.
pub open spec fn kind_byte(k: ValueKind) -> u8 {
    match k {
        ValueKind::Void => 0,
        ValueKind::Bool => 1,
        ValueKind::Int => 2,
        ValueKind::Int8 => 3,
        ValueKind::Int16 => 4,
        ValueKind::Int32 => 5,
        ValueKind::Int64 => 6,
        ValueKind::Uint => 7,
        ValueKind::Uint8 => 8,
        ValueKind::Uint16 => 9,
        ValueKind::Uint32 => 10,
        ValueKind::Uint64 => 11,
        ValueKind::Float32 => 12,
        ValueKind::Float64 => 13,
        ValueKind::FuncPtr => 14,
        ValueKind::String => 15,
        ValueKind::Array => 16,
        ValueKind::Slice => 17,
        ValueKind::MapKind => 18,
        ValueKind::Channel => 19,
        ValueKind::Closure => 20,
        ValueKind::Struct => 21,
        ValueKind::Pointer => 22,
        ValueKind::Interface => 23,
        ValueKind::Port => 24,
    }
}

/// The value kind a byte decodes to; unknown codes decode to `Void`.
pub open spec fn kind_of_byte(v: u8) -> ValueKind {
    match v {
        0 => ValueKind::Void,
        1 => ValueKind::Bool,
        2 => ValueKind::Int,
        3 => ValueKind::Int8,
        4 => ValueKind::Int16,
        5 => ValueKind::Int32,
        6 => ValueKind::Int64,
        7 => ValueKind::Uint,
        8 => ValueKind::Uint8,
        9 => ValueKind::Uint16,
        10 => ValueKind::Uint32,
        11 => ValueKind::Uint64,
        12 => ValueKind::Float32,
        13 => ValueKind::Float64,
        14 => ValueKind::FuncPtr,
        15 => ValueKind::String,
        16 => ValueKind::Array,
        17 => ValueKind::Slice,
        18 => ValueKind::MapKind,
        19 => ValueKind::Channel,
        20 => ValueKind::Closure,
        21 => ValueKind::Struct,
        22 => ValueKind::Pointer,
        23 => ValueKind::Interface,
        24 => ValueKind::Port,
        _ => ValueKind::Void,
    }
}

/// Whether values of this kind may hold heap references.
pub open spec fn spec_may_contain_gc_refs(k: ValueKind) -> bool {
    match k {
        ValueKind::String | ValueKind::Array | ValueKind::Slice | ValueKind::MapKind | ValueKind::Channel | ValueKind::Closure | ValueKind::Struct | ValueKind::Pointer | ValueKind::Interface | ValueKind::Port => true,
        _ => false,
    }
}

impl ValueKind {
    /// Byte code of this kind.
    pub fn to_u8(self) -> (r: u8)
        ensures
            r == kind_byte(self),
            r <= MAX_VALUE_KIND,
    {
        match self {
            ValueKind::Void => 0,
            ValueKind::Bool => 1,
            ValueKind::Int => 2,
            ValueKind::Int8 => 3,
            ValueKind::Int16 => 4,
            ValueKind::Int32 => 5,
            ValueKind::Int64 => 6,
            ValueKind::Uint => 7,
            ValueKind::Uint8 => 8,
            ValueKind::Uint16 => 9,
            ValueKind::Uint32 => 10,
            ValueKind::Uint64 => 11,
            ValueKind::Float32 => 12,
            ValueKind::Float64 => 13,
            ValueKind::FuncPtr => 14,
            ValueKind::String => 15,
            ValueKind::Array => 16,
            ValueKind::Slice => 17,
            ValueKind::MapKind => 18,
            ValueKind::Channel => 19,
            ValueKind::Closure => 20,
            ValueKind::Struct => 21,
            ValueKind::Pointer => 22,
            ValueKind::Interface => 23,
            ValueKind::Port => 24,
        }
    }

    /// Decode a byte code; unknown codes give `Void`.
    pub fn from_u8(v: u8) -> (r: Self)
        ensures
            r == kind_of_byte(v),
    {
        match v {
            0 => ValueKind::Void,
            1 => ValueKind::Bool,
            2 => ValueKind::Int,
            3 => ValueKind::Int8,
            4 => ValueKind::Int16,
            5 => ValueKind::Int32,
            6 => ValueKind::Int64,
            7 => ValueKind::Uint,
            8 => ValueKind::Uint8,
            9 => ValueKind::Uint16,
            10 => ValueKind::Uint32,
            11 => ValueKind::Uint64,
            12 => ValueKind::Float32,
            13 => ValueKind::Float64,
            14 => ValueKind::FuncPtr,
            15 => ValueKind::String,
            16 => ValueKind::Array,
            17 => ValueKind::Slice,
            18 => ValueKind::MapKind,
            19 => ValueKind::Channel,
            20 => ValueKind::Closure,
            21 => ValueKind::Struct,
            22 => ValueKind::Pointer,
            23 => ValueKind::Interface,
            24 => ValueKind::Port,
            _ => ValueKind::Void,
        }
    }

    /// Whether values of this kind may hold heap references.
    pub fn may_contain_gc_refs(self) -> (r: bool)
        ensures
            r == spec_may_contain_gc_refs(self),
    {
        match self {
            ValueKind::String | ValueKind::Array | ValueKind::Slice | ValueKind::MapKind | ValueKind::Channel | ValueKind::Closure | ValueKind::Struct | ValueKind::Pointer | ValueKind::Interface | ValueKind::Port => true,
            _ => false,
        }
    }

    /// Whether this kind is a primitive (up to and including `FuncPtr`).
    pub fn is_primitive(self) -> (r: bool)
        ensures
            r == (kind_byte(self) <= kind_byte(ValueKind::FuncPtr)),
    {
        self.to_u8() <= ValueKind::FuncPtr.to_u8()
    }
}

/// Value metadata packed in 32 bits: `meta_id` in the high 24 bits, the kind in the low 8.
#[derive(Debug, Clone, Copy, PartialEq, Eq, Structural)]
pub struct ValueMeta {
    pub raw: u32,
}

/// The kind encoded in a raw metadata word.
pub open spec fn raw_kind(raw: u32) -> ValueKind {
    kind_of_byte((raw % 256) as u8)
}

/// The meta id encoded in a raw metadata word.
pub open spec fn raw_meta_id(raw: u32) -> u32 {
    raw / 256
}

impl ValueMeta {
    /// Pack a meta id (low 24 bits are kept) and a kind.
    pub fn new(meta_id: u32, kind: ValueKind) -> (r: Self)
        ensures
            r.raw == (meta_id % 0x100_0000) * 256 + kind_byte(kind),
            raw_kind(r.raw) == kind,
            raw_meta_id(r.raw) == meta_id % 0x100_0000,
    {
        let k = kind.to_u8();
        let raw = ((meta_id & 0xFF_FFFF) << 8u32) | (k as u32);
        assert(raw == (meta_id % 0x100_0000) * 256 + k) by (bit_vector)
            requires
                raw == ((meta_id & 0xFF_FFFF) << 8u32) | (k as u32),
        ;
        proof { lemma_kind_byte_roundtrip(kind); }
        ValueMeta { raw }
    }

    /// Wrap a raw metadata word.
    pub fn from_raw(raw: u32) -> (r: Self)
        ensures
            r.raw == raw,
    {
        ValueMeta { raw }
    }

    /// The raw metadata word.
    pub fn to_raw(&self) -> (r: u32)
        ensures
            r == self.raw,
    {
        self.raw
    }

    /// The encoded kind.
    pub fn value_kind(&self) -> (r: ValueKind)
        ensures
            r == raw_kind(self.raw),
    {
        let raw = self.raw;
        let low = raw & 0xFF;
        assert(low == raw % 256 && low < 256) by (bit_vector)
            requires
                low == raw & 0xFF,
        ;
        ValueKind::from_u8(low as u8)
    }

    /// The encoded meta id.
    pub fn meta_id(&self) -> (r: u32)
        ensures
            r == raw_meta_id(self.raw),
    {
        let raw = self.raw;
        let r = raw >> 8u32;
        assert(r == raw / 256) by (bit_vector)
            requires
                r == raw >> 8u32,
        ;
        r
    }
}

/// Decoding the code of a kind gives the kind back.
pub proof fn lemma_kind_byte_roundtrip(k: ValueKind)
    ensures
        kind_of_byte(kind_byte(k)) == k,
        kind_byte(k) <= MAX_VALUE_KIND,
{
}

/// Packing a meta id and a kind, then reading them back, gives them back.
pub proof fn lemma_value_meta_roundtrip(meta_id: u32, kind: ValueKind)
    requires
        meta_id < 0x100_0000,
    ensures
        raw_kind((meta_id * 256 + kind_byte(kind)) as u32) == kind,
        raw_meta_id((meta_id * 256 + kind_byte(kind)) as u32) == meta_id,
{
    lemma_kind_byte_roundtrip(kind);
}

} // verus!
