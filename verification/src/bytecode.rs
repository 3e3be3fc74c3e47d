//! Function definitions of a bytecode module and the compact field layout used by
//! the field access instructions.

use vstd::prelude::*;
use vstd::string::StringExecFns;
use crate::instruction::Instruction;
use crate::value::SlotType;
use crate::type_table::TypeMeta;

verus! {

broadcast use vstd::string::group_string_axioms;

/// A bytecode function.
#[derive(Debug)]
pub struct FunctionDef {
    pub name: String,
    pub param_count: u16,
    pub param_slots: u16,
    pub local_slots: u16,
    pub ret_slots: u16,
    /// Receiver slots of a method (0 for a plain function).
    pub recv_slots: u16,
    /// How the collector treats each local slot.
    pub slot_types: Vec<SlotType>,
    pub code: Vec<Instruction>,
}

impl FunctionDef {
    /// An empty function named `name`: no parameters, locals, results or code.
    pub fn new(name: &str) -> (r: Self)
        ensures
            r.name@ == name@,
            r.param_count == 0,
            r.param_slots == 0,
            r.local_slots == 0,
            r.ret_slots == 0,
            r.recv_slots == 0,
            r.slot_types@.len() == 0,
            r.code@.len() == 0,
    {
        FunctionDef {
            name: String::from_str(name),
            param_count: 0,
            param_slots: 0,
            local_slots: 0,
            ret_slots: 0,
            recv_slots: 0,
            slot_types: Vec::new(),
            code: Vec::new(),
        }
    }
}

/// A constant of a bytecode module. A floating-point constant is held by the bits of
/// its IEEE 754 double.
#[derive(Debug, Clone)]
pub enum Constant {
    Nil,
    Bool(bool),
    Int(i64),
    Float(u64),
    String(String),
}

impl Constant {
    /// The integer value of an integer or boolean constant (1 for true, 0 for false).
    pub fn as_i64(&self) -> (r: i64)
        requires
            self is Int || self is Bool,
        ensures
            *self matches Constant::Int(v) ==> r == v,
            *self matches Constant::Bool(b) ==> r == (if b { 1i64 } else { 0i64 }),
    {
        match self {
            Constant::Int(v) => *v,
            Constant::Bool(b) => if *b { 1 } else { 0 },
            _ => 0,
        }
    }

    /// The truth value of a boolean or integer constant (an integer is true when not 0).
    pub fn as_bool(&self) -> (r: bool)
        requires
            self is Int || self is Bool,
        ensures
            *self matches Constant::Bool(b) ==> r == b,
            *self matches Constant::Int(v) ==> r == (v != 0),
    {
        match self {
            Constant::Bool(v) => *v,
            Constant::Int(v) => *v != 0,
            _ => false,
        }
    }

    /// The text of a string constant.
    pub fn as_str(&self) -> (r: &str)
        requires
            self is String,
        ensures
            *self matches Constant::String(s) ==> r@ == s@,
    {
        match self {
            Constant::String(s) => s.as_str(),
            _ => "",
        }
    }
}

/// A native function made available to bytecode.
#[derive(Debug, Clone)]
pub struct NativeDef {
    pub name: String,
    pub param_slots: u16,
    pub ret_slots: u16,
}

/// Where a field sits in the compact representation of a struct.
#[derive(Debug, Clone, Copy)]
pub struct FieldLayout {
    /// Byte offset from the start of the struct data.
    pub byte_offset: u32,
    /// Size in bytes (1, 2, 4 or 8).
    pub size: u8,
    /// Whether reads sign-extend the field.
    pub signed: bool,
}

/// Two-bit code of a field size: 0, 1, 2, 3 for 1, 2, 4, 8 bytes; any other size is
/// coded as 8 bytes.
pub open spec fn size_code_of(size: u8) -> u8 {
    if size == 1 {
        0
    } else if size == 2 {
        1
    } else if size == 4 {
        2
    } else {
        3
    }
}

impl FieldLayout {
    /// A layout with the given offset, size and signedness.
    pub fn new(byte_offset: u32, size: u8, signed: bool) -> (r: Self)
        ensures
            r.byte_offset == byte_offset,
            r.size == size,
            r.signed == signed,
    {
        FieldLayout { byte_offset, size, signed }
    }

    /// The two-bit size code.
    pub fn size_code(&self) -> (r: u8)
        ensures
            r == size_code_of(self.size),
    {
        match self.size {
            1 => 0,
            2 => 1,
            4 => 2,
            8 => 3,
            _ => 3,
        }
    }

    /// Flags of the field access instructions: bits 0-1 the size code, bit 2 set
    /// for a signed field.
    pub fn flags(&self) -> (r: u8)
        ensures
            r == size_code_of(self.size) + (if self.signed { 4u8 } else { 0u8 }),
            r & 3 == size_code_of(self.size),
            (r & 4 != 0) == self.signed,
    {
        let code = self.size_code();
        let sign: u8 = if self.signed { 0b100 } else { 0 };
        assert(code <= 3 && (sign == 0 || sign == 4) ==> {
            &&& code | sign == code + sign
            &&& (code | sign) & 3 == code
            &&& ((code | sign) & 4 != 0) == (sign == 4)
        }) by (bit_vector);
        code | sign
    }
}

/// A bytecode module: its types, constants, functions and native functions, and the
/// function it starts with.
pub struct Module {
    pub name: String,
    pub types: Vec<TypeMeta>,
    pub constants: Vec<Constant>,
    pub functions: Vec<FunctionDef>,
    pub natives: Vec<NativeDef>,
    pub entry_func: u32,
}

impl Module {
    /// An empty module named `name`.
    pub fn new(name: &str) -> (r: Self)
        ensures
            r.name@ == name@,
            r.types@.len() == 0,
            r.constants@.len() == 0,
            r.functions@.len() == 0,
            r.natives@.len() == 0,
            r.entry_func == 0,
    {
        Module {
            name: String::from_str(name),
            types: Vec::new(),
            constants: Vec::new(),
            functions: Vec::new(),
            natives: Vec::new(),
            entry_func: 0,
        }
    }

    /// Add a constant; its index (kept to 16 bits) is returned.
    pub fn add_constant(&mut self, c: Constant) -> (r: u16)
        ensures
            final(self).constants@ == old(self).constants@.push(c),
            r == old(self).constants@.len() as u16,
            final(self).functions@ == old(self).functions@,
            final(self).natives@ == old(self).natives@,
    {
        let idx = self.constants.len();
        self.constants.push(c);
        idx as u16
    }

    /// Add a function; its index (kept to 32 bits) is returned.
    pub fn add_function(&mut self, f: FunctionDef) -> (r: u32)
        ensures
            final(self).functions@ == old(self).functions@.push(f),
            r == old(self).functions@.len() as u32,
            final(self).constants@ == old(self).constants@,
            final(self).natives@ == old(self).natives@,
    {
        let idx = self.functions.len();
        self.functions.push(f);
        idx as u32
    }

    /// Add a native function; its index (kept to 32 bits) is returned.
    pub fn add_native(&mut self, name: &str, param_slots: u16, ret_slots: u16) -> (r: u32)
        ensures
            final(self).natives@.len() == old(self).natives@.len() + 1,
            final(self).natives@.subrange(0, old(self).natives@.len() as int) == old(self).natives@,
            final(self).natives@.last().name@ == name@,
            final(self).natives@.last().param_slots == param_slots,
            final(self).natives@.last().ret_slots == ret_slots,
            r == old(self).natives@.len() as u32,
            final(self).functions@ == old(self).functions@,
            final(self).constants@ == old(self).constants@,
    {
        let idx = self.natives.len();
        self.natives.push(NativeDef { name: String::from_str(name), param_slots, ret_slots });
        assert(self.natives@.subrange(0, old(self).natives@.len() as int) =~= old(self).natives@);
        idx as u32
    }

    /// The function with id `id`, if any.
    pub fn get_function(&self, id: u32) -> (r: Option<&FunctionDef>)
        ensures
            (id as int) < self.functions@.len() ==> r == Some(&self.functions@[id as int]),
            (id as int) >= self.functions@.len() ==> r is None,
    {
        let i = id as usize;
        if i < self.functions.len() {
            Some(&self.functions[i])
        } else {
            None
        }
    }

    /// The native function with id `id`, if any.
    pub fn get_native(&self, id: u32) -> (r: Option<&NativeDef>)
        ensures
            (id as int) < self.natives@.len() ==> r == Some(&self.natives@[id as int]),
            (id as int) >= self.natives@.len() ==> r is None,
    {
        let i = id as usize;
        if i < self.natives.len() {
            Some(&self.natives[i])
        } else {
            None
        }
    }

    /// Id (kept to 32 bits) of the first function named `name`, if any.
    pub fn find_function(&self, name: &str) -> (r: Option<u32>)
        ensures
            match r {
                Some(k) => exists|i: int|
                    0 <= i < self.functions@.len() && self.functions@[i].name@ == name@ && k == i as u32
                        && forall|j: int| 0 <= j < i ==> (#[trigger] self.functions@[j]).name@ != name@,
                None => forall|j: int| 0 <= j < self.functions@.len() ==> (#[trigger] self.functions@[j]).name@ != name@,
            },
    {
        let key = String::from_str(name);
        let mut i: usize = 0;
        while i < self.functions.len()
            invariant
                key@ == name@,
                0 <= i <= self.functions@.len(),
                forall|j: int| 0 <= j < i ==> (#[trigger] self.functions@[j]).name@ != name@,
            decreases self.functions.len() - i,
        {
            if self.functions[i].name == key {
                return Some(i as u32);
            }
            i = i + 1;
        }
        None
    }

    /// Id (kept to 32 bits) of the first native function named `name`, if any.
    pub fn find_native(&self, name: &str) -> (r: Option<u32>)
        ensures
            match r {
                Some(k) => exists|i: int|
                    0 <= i < self.natives@.len() && self.natives@[i].name@ == name@ && k == i as u32
                        && forall|j: int| 0 <= j < i ==> (#[trigger] self.natives@[j]).name@ != name@,
                None => forall|j: int| 0 <= j < self.natives@.len() ==> (#[trigger] self.natives@[j]).name@ != name@,
            },
    {
        let key = String::from_str(name);
        let mut i: usize = 0;
        while i < self.natives.len()
            invariant
                key@ == name@,
                0 <= i <= self.natives@.len(),
                forall|j: int| 0 <= j < i ==> (#[trigger] self.natives@[j]).name@ != name@,
            decreases self.natives.len() - i,
        {
            if self.natives[i].name == key {
                return Some(i as u32);
            }
            i = i + 1;
        }
        None
    }
}

} // verus!
