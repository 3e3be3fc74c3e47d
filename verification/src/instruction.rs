//! Instruction format and opcodes of the bytecode VM.

use vstd::prelude::*;

verus! {

/// 8-byte fixed instruction format.
#[derive(Debug, Clone, Copy, PartialEq, Eq, Structural)]
pub struct Instruction {
    pub op: u8,
    pub flags: u8,
    pub a: u16,
    pub b: u16,
    pub c: u16,
}

/// Bytecode operation codes, numbered 0..=116 in declaration order.
#[derive(Debug, Clone, Copy, PartialEq, Eq, Structural)]
pub enum Opcode {
    // === LOAD: Load immediate/constant ===
    Nop,
    LoadNil,
    LoadTrue,
    LoadFalse,
    LoadInt,
    LoadConst,

    // === COPY: Stack slot copy ===
    Copy,
    CopyN,

    // === SLOT: Stack dynamic indexing (for stack arrays) ===
    SlotGet,
    SlotSet,
    SlotGetN,
    SlotSetN,

    // === GLOBAL: Global variables ===
    GlobalGet,
    GlobalGetN,
    GlobalSet,
    GlobalSetN,

    // === PTR: Heap pointer operations ===
    PtrNew,
    PtrClone,
    PtrGet,
    PtrSet,
    PtrGetN,
    PtrSetN,

    // === ARITH: Integer arithmetic ===
    AddI,
    SubI,
    MulI,
    DivI,
    ModI,
    NegI,

    // === ARITH: Float arithmetic ===
    AddF,
    SubF,
    MulF,
    DivF,
    NegF,

    // === CMP: Integer comparison ===
    EqI,
    NeI,
    LtI,
    LeI,
    GtI,
    GeI,

    // === CMP: Float comparison ===
    EqF,
    NeF,
    LtF,
    LeF,
    GtF,
    GeF,

    // === CMP: Reference comparison ===
    EqRef,
    NeRef,
    IsNil,

    // === BIT: Bitwise operations ===
    And,
    Or,
    Xor,
    Not,
    Shl,
    ShrS,
    ShrU,

    // === LOGIC: Logical operations ===
    BoolNot,

    // === JUMP: Control flow ===
    Jump,
    JumpIf,
    JumpIfNot,

    // === CALL: Function calls ===
    Call,
    CallExtern,
    CallClosure,
    CallIface,
    Return,

    // === STR: String operations ===
    StrNew,
    StrLen,
    StrIndex,
    StrConcat,
    StrSlice,
    StrEq,
    StrNe,
    StrLt,
    StrLe,
    StrGt,
    StrGe,

    // === ARRAY: Heap array operations ===
    ArrayNew,
    ArrayGet,
    ArraySet,
    ArrayLen,

    // === SLICE: Slice operations ===
    SliceNew,
    SliceGet,
    SliceSet,
    SliceLen,
    SliceCap,
    SliceSlice,
    SliceAppend,

    // === MAP: Map operations ===
    MapNew,
    MapGet,
    MapSet,
    MapDelete,
    MapLen,

    // === CHAN: Channel operations ===
    ChanNew,
    ChanSend,
    ChanRecv,
    ChanClose,

    // === SELECT: Select statement ===
    SelectBegin,
    SelectSend,
    SelectRecv,
    SelectExec,

    // === ITER: Iterator (for-range) ===
    IterBegin,
    IterNext,
    IterEnd,

    // === CLOSURE: Closure operations ===
    ClosureNew,
    ClosureGet,
    ClosureSet,

    // === GO: Goroutine ===
    GoCall,
    Yield,

    // === DEFER: Defer and error handling ===
    DeferPush,
    ErrDeferPush,
    Panic,
    Recover,

    // === IFACE: Interface operations ===
    IfaceAssign,
    IfaceAssert,

    // === CONV: Type conversion ===
    ConvI2F,
    ConvF2I,
    ConvI32I64,
    ConvI64I32,

    // Sentinel for invalid/unknown opcodes

    /// Sentinel for invalid/unknown opcodes.
    Invalid,
}

/// Number of the last valid opcode.
pub const MAX_VALID_OPCODE: u8 = 116;

/// The byte that encodes an opcode (its position in declaration order; `Invalid` is 255).
pub open spec fn opcode_byte(op: Opcode) -> u8 {
    match op {
        Opcode::Nop => 0,
        Opcode::LoadNil => 1,
        Opcode::LoadTrue => 2,
        Opcode::LoadFalse => 3,
        Opcode::LoadInt => 4,
        Opcode::LoadConst => 5,
        Opcode::Copy => 6,
        Opcode::CopyN => 7,
        Opcode::SlotGet => 8,
        Opcode::SlotSet => 9,
        Opcode::SlotGetN => 10,
        Opcode::SlotSetN => 11,
        Opcode::GlobalGet => 12,
        Opcode::GlobalGetN => 13,
        Opcode::GlobalSet => 14,
        Opcode::GlobalSetN => 15,
        Opcode::PtrNew => 16,
        Opcode::PtrClone => 17,
        Opcode::PtrGet => 18,
        Opcode::PtrSet => 19,
        Opcode::PtrGetN => 20,
        Opcode::PtrSetN => 21,
        Opcode::AddI => 22,
        Opcode::SubI => 23,
        Opcode::MulI => 24,
        Opcode::DivI => 25,
        Opcode::ModI => 26,
        Opcode::NegI => 27,
        Opcode::AddF => 28,
        Opcode::SubF => 29,
        Opcode::MulF => 30,
        Opcode::DivF => 31,
        Opcode::NegF => 32,
        Opcode::EqI => 33,
        Opcode::NeI => 34,
        Opcode::LtI => 35,
        Opcode::LeI => 36,
        Opcode::GtI => 37,
        Opcode::GeI => 38,
        Opcode::EqF => 39,
        Opcode::NeF => 40,
        Opcode::LtF => 41,
        Opcode::LeF => 42,
        Opcode::GtF => 43,
        Opcode::GeF => 44,
        Opcode::EqRef => 45,
        Opcode::NeRef => 46,
        Opcode::IsNil => 47,
        Opcode::And => 48,
        Opcode::Or => 49,
        Opcode::Xor => 50,
        Opcode::Not => 51,
        Opcode::Shl => 52,
        Opcode::ShrS => 53,
        Opcode::ShrU => 54,
        Opcode::BoolNot => 55,
        Opcode::Jump => 56,
        Opcode::JumpIf => 57,
        Opcode::JumpIfNot => 58,
        Opcode::Call => 59,
        Opcode::CallExtern => 60,
        Opcode::CallClosure => 61,
        Opcode::CallIface => 62,
        Opcode::Return => 63,
        Opcode::StrNew => 64,
        Opcode::StrLen => 65,
        Opcode::StrIndex => 66,
        Opcode::StrConcat => 67,
        Opcode::StrSlice => 68,
        Opcode::StrEq => 69,
        Opcode::StrNe => 70,
        Opcode::StrLt => 71,
        Opcode::StrLe => 72,
        Opcode::StrGt => 73,
        Opcode::StrGe => 74,
        Opcode::ArrayNew => 75,
        Opcode::ArrayGet => 76,
        Opcode::ArraySet => 77,
        Opcode::ArrayLen => 78,
        Opcode::SliceNew => 79,
        Opcode::SliceGet => 80,
        Opcode::SliceSet => 81,
        Opcode::SliceLen => 82,
        Opcode::SliceCap => 83,
        Opcode::SliceSlice => 84,
        Opcode::SliceAppend => 85,
        Opcode::MapNew => 86,
        Opcode::MapGet => 87,
        Opcode::MapSet => 88,
        Opcode::MapDelete => 89,
        Opcode::MapLen => 90,
        Opcode::ChanNew => 91,
        Opcode::ChanSend => 92,
        Opcode::ChanRecv => 93,
        Opcode::ChanClose => 94,
        Opcode::SelectBegin => 95,
        Opcode::SelectSend => 96,
        Opcode::SelectRecv => 97,
        Opcode::SelectExec => 98,
        Opcode::IterBegin => 99,
        Opcode::IterNext => 100,
        Opcode::IterEnd => 101,
        Opcode::ClosureNew => 102,
        Opcode::ClosureGet => 103,
        Opcode::ClosureSet => 104,
        Opcode::GoCall => 105,
        Opcode::Yield => 106,
        Opcode::DeferPush => 107,
        Opcode::ErrDeferPush => 108,
        Opcode::Panic => 109,
        Opcode::Recover => 110,
        Opcode::IfaceAssign => 111,
        Opcode::IfaceAssert => 112,
        Opcode::ConvI2F => 113,
        Opcode::ConvF2I => 114,
        Opcode::ConvI32I64 => 115,
        Opcode::ConvI64I32 => 116,
        Opcode::Invalid => 255,
    }
}

/// The opcode that a byte decodes to.
pub open spec fn opcode_of_byte(v: u8) -> Opcode {
    match v {
        0 => Opcode::Nop,
        1 => Opcode::LoadNil,
        2 => Opcode::LoadTrue,
        3 => Opcode::LoadFalse,
        4 => Opcode::LoadInt,
        5 => Opcode::LoadConst,
        6 => Opcode::Copy,
        7 => Opcode::CopyN,
        8 => Opcode::SlotGet,
        9 => Opcode::SlotSet,
        10 => Opcode::SlotGetN,
        11 => Opcode::SlotSetN,
        12 => Opcode::GlobalGet,
        13 => Opcode::GlobalGetN,
        14 => Opcode::GlobalSet,
        15 => Opcode::GlobalSetN,
        16 => Opcode::PtrNew,
        17 => Opcode::PtrClone,
        18 => Opcode::PtrGet,
        19 => Opcode::PtrSet,
        20 => Opcode::PtrGetN,
        21 => Opcode::PtrSetN,
        22 => Opcode::AddI,
        23 => Opcode::SubI,
        24 => Opcode::MulI,
        25 => Opcode::DivI,
        26 => Opcode::ModI,
        27 => Opcode::NegI,
        28 => Opcode::AddF,
        29 => Opcode::SubF,
        30 => Opcode::MulF,
        31 => Opcode::DivF,
        32 => Opcode::NegF,
        33 => Opcode::EqI,
        34 => Opcode::NeI,
        35 => Opcode::LtI,
        36 => Opcode::LeI,
        37 => Opcode::GtI,
        38 => Opcode::GeI,
        39 => Opcode::EqF,
        40 => Opcode::NeF,
        41 => Opcode::LtF,
        42 => Opcode::LeF,
        43 => Opcode::GtF,
        44 => Opcode::GeF,
        45 => Opcode::EqRef,
        46 => Opcode::NeRef,
        47 => Opcode::IsNil,
        48 => Opcode::And,
        49 => Opcode::Or,
        50 => Opcode::Xor,
        51 => Opcode::Not,
        52 => Opcode::Shl,
        53 => Opcode::ShrS,
        54 => Opcode::ShrU,
        55 => Opcode::BoolNot,
        56 => Opcode::Jump,
        57 => Opcode::JumpIf,
        58 => Opcode::JumpIfNot,
        59 => Opcode::Call,
        60 => Opcode::CallExtern,
        61 => Opcode::CallClosure,
        62 => Opcode::CallIface,
        63 => Opcode::Return,
        64 => Opcode::StrNew,
        65 => Opcode::StrLen,
        66 => Opcode::StrIndex,
        67 => Opcode::StrConcat,
        68 => Opcode::StrSlice,
        69 => Opcode::StrEq,
        70 => Opcode::StrNe,
        71 => Opcode::StrLt,
        72 => Opcode::StrLe,
        73 => Opcode::StrGt,
        74 => Opcode::StrGe,
        75 => Opcode::ArrayNew,
        76 => Opcode::ArrayGet,
        77 => Opcode::ArraySet,
        78 => Opcode::ArrayLen,
        79 => Opcode::SliceNew,
        80 => Opcode::SliceGet,
        81 => Opcode::SliceSet,
        82 => Opcode::SliceLen,
        83 => Opcode::SliceCap,
        84 => Opcode::SliceSlice,
        85 => Opcode::SliceAppend,
        86 => Opcode::MapNew,
        87 => Opcode::MapGet,
        88 => Opcode::MapSet,
        89 => Opcode::MapDelete,
        90 => Opcode::MapLen,
        91 => Opcode::ChanNew,
        92 => Opcode::ChanSend,
        93 => Opcode::ChanRecv,
        94 => Opcode::ChanClose,
        95 => Opcode::SelectBegin,
        96 => Opcode::SelectSend,
        97 => Opcode::SelectRecv,
        98 => Opcode::SelectExec,
        99 => Opcode::IterBegin,
        100 => Opcode::IterNext,
        101 => Opcode::IterEnd,
        102 => Opcode::ClosureNew,
        103 => Opcode::ClosureGet,
        104 => Opcode::ClosureSet,
        105 => Opcode::GoCall,
        106 => Opcode::Yield,
        107 => Opcode::DeferPush,
        108 => Opcode::ErrDeferPush,
        109 => Opcode::Panic,
        110 => Opcode::Recover,
        111 => Opcode::IfaceAssign,
        112 => Opcode::IfaceAssert,
        113 => Opcode::ConvI2F,
        114 => Opcode::ConvF2I,
        115 => Opcode::ConvI32I64,
        116 => Opcode::ConvI64I32,
        _ => Opcode::Invalid,
    }
}

impl Opcode {
    /// Encode this opcode as a byte.
    pub fn to_u8(self) -> (r: u8)
        ensures
            r == opcode_byte(self),
    {
        match self {
            Opcode::Nop => 0,
            Opcode::LoadNil => 1,
            Opcode::LoadTrue => 2,
            Opcode::LoadFalse => 3,
            Opcode::LoadInt => 4,
            Opcode::LoadConst => 5,
            Opcode::Copy => 6,
            Opcode::CopyN => 7,
            Opcode::SlotGet => 8,
            Opcode::SlotSet => 9,
            Opcode::SlotGetN => 10,
            Opcode::SlotSetN => 11,
            Opcode::GlobalGet => 12,
            Opcode::GlobalGetN => 13,
            Opcode::GlobalSet => 14,
            Opcode::GlobalSetN => 15,
            Opcode::PtrNew => 16,
            Opcode::PtrClone => 17,
            Opcode::PtrGet => 18,
            Opcode::PtrSet => 19,
            Opcode::PtrGetN => 20,
            Opcode::PtrSetN => 21,
            Opcode::AddI => 22,
            Opcode::SubI => 23,
            Opcode::MulI => 24,
            Opcode::DivI => 25,
            Opcode::ModI => 26,
            Opcode::NegI => 27,
            Opcode::AddF => 28,
            Opcode::SubF => 29,
            Opcode::MulF => 30,
            Opcode::DivF => 31,
            Opcode::NegF => 32,
            Opcode::EqI => 33,
            Opcode::NeI => 34,
            Opcode::LtI => 35,
            Opcode::LeI => 36,
            Opcode::GtI => 37,
            Opcode::GeI => 38,
            Opcode::EqF => 39,
            Opcode::NeF => 40,
            Opcode::LtF => 41,
            Opcode::LeF => 42,
            Opcode::GtF => 43,
            Opcode::GeF => 44,
            Opcode::EqRef => 45,
            Opcode::NeRef => 46,
            Opcode::IsNil => 47,
            Opcode::And => 48,
            Opcode::Or => 49,
            Opcode::Xor => 50,
            Opcode::Not => 51,
            Opcode::Shl => 52,
            Opcode::ShrS => 53,
            Opcode::ShrU => 54,
            Opcode::BoolNot => 55,
            Opcode::Jump => 56,
            Opcode::JumpIf => 57,
            Opcode::JumpIfNot => 58,
            Opcode::Call => 59,
            Opcode::CallExtern => 60,
            Opcode::CallClosure => 61,
            Opcode::CallIface => 62,
            Opcode::Return => 63,
            Opcode::StrNew => 64,
            Opcode::StrLen => 65,
            Opcode::StrIndex => 66,
            Opcode::StrConcat => 67,
            Opcode::StrSlice => 68,
            Opcode::StrEq => 69,
            Opcode::StrNe => 70,
            Opcode::StrLt => 71,
            Opcode::StrLe => 72,
            Opcode::StrGt => 73,
            Opcode::StrGe => 74,
            Opcode::ArrayNew => 75,
            Opcode::ArrayGet => 76,
            Opcode::ArraySet => 77,
            Opcode::ArrayLen => 78,
            Opcode::SliceNew => 79,
            Opcode::SliceGet => 80,
            Opcode::SliceSet => 81,
            Opcode::SliceLen => 82,
            Opcode::SliceCap => 83,
            Opcode::SliceSlice => 84,
            Opcode::SliceAppend => 85,
            Opcode::MapNew => 86,
            Opcode::MapGet => 87,
            Opcode::MapSet => 88,
            Opcode::MapDelete => 89,
            Opcode::MapLen => 90,
            Opcode::ChanNew => 91,
            Opcode::ChanSend => 92,
            Opcode::ChanRecv => 93,
            Opcode::ChanClose => 94,
            Opcode::SelectBegin => 95,
            Opcode::SelectSend => 96,
            Opcode::SelectRecv => 97,
            Opcode::SelectExec => 98,
            Opcode::IterBegin => 99,
            Opcode::IterNext => 100,
            Opcode::IterEnd => 101,
            Opcode::ClosureNew => 102,
            Opcode::ClosureGet => 103,
            Opcode::ClosureSet => 104,
            Opcode::GoCall => 105,
            Opcode::Yield => 106,
            Opcode::DeferPush => 107,
            Opcode::ErrDeferPush => 108,
            Opcode::Panic => 109,
            Opcode::Recover => 110,
            Opcode::IfaceAssign => 111,
            Opcode::IfaceAssert => 112,
            Opcode::ConvI2F => 113,
            Opcode::ConvF2I => 114,
            Opcode::ConvI32I64 => 115,
            Opcode::ConvI64I32 => 116,
            Opcode::Invalid => 255,
        }
    }

    /// Decode a byte; any byte above the last valid opcode decodes to `Invalid`.
    pub fn from_u8(v: u8) -> (r: Self)
        ensures
            r == opcode_of_byte(v),
            v <= MAX_VALID_OPCODE <==> r != Opcode::Invalid,
    {
        match v {
            0 => Opcode::Nop,
            1 => Opcode::LoadNil,
            2 => Opcode::LoadTrue,
            3 => Opcode::LoadFalse,
            4 => Opcode::LoadInt,
            5 => Opcode::LoadConst,
            6 => Opcode::Copy,
            7 => Opcode::CopyN,
            8 => Opcode::SlotGet,
            9 => Opcode::SlotSet,
            10 => Opcode::SlotGetN,
            11 => Opcode::SlotSetN,
            12 => Opcode::GlobalGet,
            13 => Opcode::GlobalGetN,
            14 => Opcode::GlobalSet,
            15 => Opcode::GlobalSetN,
            16 => Opcode::PtrNew,
            17 => Opcode::PtrClone,
            18 => Opcode::PtrGet,
            19 => Opcode::PtrSet,
            20 => Opcode::PtrGetN,
            21 => Opcode::PtrSetN,
            22 => Opcode::AddI,
            23 => Opcode::SubI,
            24 => Opcode::MulI,
            25 => Opcode::DivI,
            26 => Opcode::ModI,
            27 => Opcode::NegI,
            28 => Opcode::AddF,
            29 => Opcode::SubF,
            30 => Opcode::MulF,
            31 => Opcode::DivF,
            32 => Opcode::NegF,
            33 => Opcode::EqI,
            34 => Opcode::NeI,
            35 => Opcode::LtI,
            36 => Opcode::LeI,
            37 => Opcode::GtI,
            38 => Opcode::GeI,
            39 => Opcode::EqF,
            40 => Opcode::NeF,
            41 => Opcode::LtF,
            42 => Opcode::LeF,
            43 => Opcode::GtF,
            44 => Opcode::GeF,
            45 => Opcode::EqRef,
            46 => Opcode::NeRef,
            47 => Opcode::IsNil,
            48 => Opcode::And,
            49 => Opcode::Or,
            50 => Opcode::Xor,
            51 => Opcode::Not,
            52 => Opcode::Shl,
            53 => Opcode::ShrS,
            54 => Opcode::ShrU,
            55 => Opcode::BoolNot,
            56 => Opcode::Jump,
            57 => Opcode::JumpIf,
            58 => Opcode::JumpIfNot,
            59 => Opcode::Call,
            60 => Opcode::CallExtern,
            61 => Opcode::CallClosure,
            62 => Opcode::CallIface,
            63 => Opcode::Return,
            64 => Opcode::StrNew,
            65 => Opcode::StrLen,
            66 => Opcode::StrIndex,
            67 => Opcode::StrConcat,
            68 => Opcode::StrSlice,
            69 => Opcode::StrEq,
            70 => Opcode::StrNe,
            71 => Opcode::StrLt,
            72 => Opcode::StrLe,
            73 => Opcode::StrGt,
            74 => Opcode::StrGe,
            75 => Opcode::ArrayNew,
            76 => Opcode::ArrayGet,
            77 => Opcode::ArraySet,
            78 => Opcode::ArrayLen,
            79 => Opcode::SliceNew,
            80 => Opcode::SliceGet,
            81 => Opcode::SliceSet,
            82 => Opcode::SliceLen,
            83 => Opcode::SliceCap,
            84 => Opcode::SliceSlice,
            85 => Opcode::SliceAppend,
            86 => Opcode::MapNew,
            87 => Opcode::MapGet,
            88 => Opcode::MapSet,
            89 => Opcode::MapDelete,
            90 => Opcode::MapLen,
            91 => Opcode::ChanNew,
            92 => Opcode::ChanSend,
            93 => Opcode::ChanRecv,
            94 => Opcode::ChanClose,
            95 => Opcode::SelectBegin,
            96 => Opcode::SelectSend,
            97 => Opcode::SelectRecv,
            98 => Opcode::SelectExec,
            99 => Opcode::IterBegin,
            100 => Opcode::IterNext,
            101 => Opcode::IterEnd,
            102 => Opcode::ClosureNew,
            103 => Opcode::ClosureGet,
            104 => Opcode::ClosureSet,
            105 => Opcode::GoCall,
            106 => Opcode::Yield,
            107 => Opcode::DeferPush,
            108 => Opcode::ErrDeferPush,
            109 => Opcode::Panic,
            110 => Opcode::Recover,
            111 => Opcode::IfaceAssign,
            112 => Opcode::IfaceAssert,
            113 => Opcode::ConvI2F,
            114 => Opcode::ConvF2I,
            115 => Opcode::ConvI32I64,
            116 => Opcode::ConvI64I32,
            _ => Opcode::Invalid,
        }
    }
}


/// The unsigned 32-bit immediate held in the `b` (low half) and `c` (high half) fields.
pub open spec fn spec_imm32_unsigned(inst: Instruction) -> u32 {
    (inst.b as int + inst.c as int * 0x10000) as u32
}

/// Two's-complement reading of a 32-bit word.
pub open spec fn as_signed32(u: u32) -> int {
    if u < 0x8000_0000 { u as int } else { u as int - 0x1_0000_0000 }
}

impl Instruction {
    /// Instruction with zero flags.
    pub fn new(op: Opcode, a: u16, b: u16, c: u16) -> (r: Self)
        ensures
            r.op == opcode_byte(op),
            r.flags == 0,
            r.a == a,
            r.b == b,
            r.c == c,
    {
        Instruction { op: op.to_u8(), flags: 0, a, b, c }
    }

    /// Instruction with explicit flags.
    pub fn with_flags(op: Opcode, flags: u8, a: u16, b: u16, c: u16) -> (r: Self)
        ensures
            r.op == opcode_byte(op),
            r.flags == flags,
            r.a == a,
            r.b == b,
            r.c == c,
    {
        Instruction { op: op.to_u8(), flags, a, b, c }
    }

    /// The decoded opcode.
    pub fn opcode(&self) -> (r: Opcode)
        ensures
            r == opcode_of_byte(self.op),
    {
        Opcode::from_u8(self.op)
    }

    /// The 32-bit immediate `b | (c << 16)`, read as signed.
    pub fn imm32(&self) -> (r: i32)
        ensures
            r as int == as_signed32(spec_imm32_unsigned(*self)),
    {
        let u = self.imm32_unsigned();
        let r = u as i32;
        assert(r as int == as_signed32(u)) by (bit_vector)
            requires
                r == u as i32,
        ;
        r
    }

    /// The 32-bit immediate `b | (c << 16)`.
    pub fn imm32_unsigned(&self) -> (r: u32)
        ensures
            r == spec_imm32_unsigned(*self),
            r == self.b as int + self.c as int * 0x10000,
    {
        let b = self.b;
        let c = self.c;
        let r = (b as u32) | ((c as u32) << 16u32);
        assert(r == b as int + c as int * 0x10000) by (bit_vector)
            requires
                r == (b as u32) | ((c as u32) << 16u32),
        ;
        r
    }
}

/// Decoding the byte of a valid opcode gives the opcode back.
pub proof fn lemma_opcode_byte_roundtrip(op: Opcode)
    requires
        op != Opcode::Invalid,
    ensures
        opcode_of_byte(opcode_byte(op)) == op,
        opcode_byte(op) <= MAX_VALID_OPCODE,
{
}

/// Every byte up to the last valid opcode is the byte of the opcode it decodes to.
pub proof fn lemma_byte_opcode_roundtrip(v: u8)
    requires
        v <= MAX_VALID_OPCODE,
    ensures
        opcode_byte(opcode_of_byte(v)) == v,
        opcode_of_byte(v) != Opcode::Invalid,
{
}

/// The immediate of an instruction built from halves `lo` and `hi` is `lo + hi * 2^16`;
/// the signed immediate is its two's-complement reading.
pub proof fn lemma_imm32_halves(inst: Instruction)
    ensures
        spec_imm32_unsigned(inst) as int == inst.b as int + inst.c as int * 0x10000,
        spec_imm32_unsigned(inst) == 0xFFFF_FFFFu32 ==> as_signed32(spec_imm32_unsigned(inst)) == -1,
{
}

} // verus!
