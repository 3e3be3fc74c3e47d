//! Vo types as seen by extern-function validation: the slot layout of each type,
//! the Rust type an extern implementation must use, struct field offsets and type
//! aliases.

use vstd::prelude::*;
use vstd::string::StringExecFns;
use crate::strbuf::{self, push_char, push_radix, push_str};
use crate::vo_const;

verus! {

broadcast use vstd::string::group_string_axioms;

/// Channel direction.
#[derive(Debug, Clone, Copy, PartialEq, Eq, Structural)]
pub enum ChanDir {
    /// Bidirectional: `chan T`.
    Both,
    /// Send-only: `chan<- T`.
    Send,
    /// Receive-only: `<-chan T`.
    Recv,
}

/// A Vo type.
#[derive(Debug)]
pub enum VoType {
    Int,
    Int8,
    Int16,
    Int32,
    Int64,
    Uint,
    Uint8,
    Uint16,
    Uint32,
    Uint64,
    Float32,
    Float64,
    Bool,
    String,
    Any,
    /// A type referred to by name.
    Named(String),
    Pointer(Box<VoType>),
    Slice(Box<VoType>),
    Array(usize, Box<VoType>),
    /// `map[K]V`.
    MapOf(Box<VoType>, Box<VoType>),
    Chan(ChanDir, Box<VoType>),
    /// Parameter types and result types.
    Func(Vec<VoType>, Vec<VoType>),
    /// Variadic parameter `...T`.
    Variadic(Box<VoType>),
    /// Struct type with its field types.
    Struct(Vec<VoType>),
}

/// A Vo function parameter.
#[derive(Debug)]
pub struct VoParam {
    pub name: String,
    pub ty: VoType,
}

/// A Vo function signature.
#[derive(Debug)]
pub struct VoFuncSig {
    pub name: String,
    pub params: Vec<VoParam>,
    pub results: Vec<VoType>,
}

/// An import of a Vo package, with its optional alias.
#[derive(Debug, Clone)]
pub struct VoImport {
    pub alias: Option<String>,
    pub path: String,
}

/// A field of a struct definition.
#[derive(Debug)]
pub struct VoStructField {
    pub name: String,
    pub ty: VoType,
}

/// A struct definition.
#[derive(Debug)]
pub struct VoStructDef {
    pub name: String,
    pub fields: Vec<VoStructField>,
}

/// Named types of a package, each mapped to its underlying type.
pub struct TypeAliases {
    entries: Vec<(String, VoType)>,
}

// ==================== Type aliases ====================

impl TypeAliases {
    /// No name occurs twice.
    pub closed spec fn wf(&self) -> bool {
        forall|i: int, j: int|
            0 <= i < j < self.entries@.len() ==> (#[trigger] self.entries@[i]).0@ != (#[trigger] self.entries@[j]).0@
    }

    /// The aliases as a map from name to underlying type.
    pub closed spec fn view(&self) -> Map<Seq<char>, VoType> {
        Map::new(
            |k: Seq<char>| exists|i: int| 0 <= i < self.entries@.len() && #[trigger] self.entries@[i].0@ == k,
            |k: Seq<char>|
                self.entries@[choose|i: int| 0 <= i < self.entries@.len() && #[trigger] self.entries@[i].0@ == k].1,
        )
    }

    proof fn lemma_view_at(&self, i: int)
        requires
            self.wf(),
            0 <= i < self.entries@.len(),
        ensures
            self@.contains_key(self.entries@[i].0@),
            self@[self.entries@[i].0@] == self.entries@[i].1,
    {
        let k = self.entries@[i].0@;
        assert(self@.contains_key(k));
        let j = choose|j: int| 0 <= j < self.entries@.len() && #[trigger] self.entries@[j].0@ == k;
        if j != i {
            if j < i {
                assert(self.entries@[j].0@ != self.entries@[i].0@);
            } else {
                assert(self.entries@[i].0@ != self.entries@[j].0@);
            }
        }
    }

    /// No aliases.
    pub fn new() -> (r: Self)
        ensures
            r.wf(),
            r@ == Map::<Seq<char>, VoType>::empty(),
    {
        let r = TypeAliases { entries: Vec::new() };
        assert(r@ =~= Map::<Seq<char>, VoType>::empty());
        r
    }

    /// Position of `name` among the entries.
    fn position(&self, name: &String) -> (r: Option<usize>)
        requires
            self.wf(),
        ensures
            match r {
                Some(i) => i < self.entries@.len() && self.entries@[i as int].0@ == name@,
                None => !self@.contains_key(name@),
            },
    {
        let mut i: usize = 0;
        while i < self.entries.len()
            invariant
                0 <= i <= self.entries@.len(),
                forall|j: int| 0 <= j < i ==> (#[trigger] self.entries@[j]).0@ != name@,
            decreases self.entries.len() - i,
        {
            if self.entries[i].0 == *name {
                return Some(i);
            }
            i = i + 1;
        }
        None
    }

    /// The underlying type of `name`, if it is an alias.
    pub fn get(&self, name: &String) -> (r: Option<&VoType>)
        requires
            self.wf(),
        ensures
            match r {
                Some(t) => self@.contains_key(name@) && *t == self@[name@],
                None => !self@.contains_key(name@),
            },
    {
        match self.position(name) {
            Some(i) => {
                proof {
                    self.lemma_view_at(i as int);
                }
                Some(&self.entries[i].1)
            },
            None => None,
        }
    }

    /// Record that `name` stands for `ty`, replacing an earlier entry for `name`.
    pub fn insert(&mut self, name: String, ty: VoType)
        requires
            old(self).wf(),
        ensures
            final(self).wf(),
            final(self)@ == old(self)@.insert(name@, ty),
    {
        let ghost k = name@;
        let ghost tv = ty;
        match self.position(&name) {
            Some(i) => {
                let ghost old_entries = self.entries@;
                self.entries.set(i, (name, ty));
                proof {
                    assert forall|a: int, b: int|
                        0 <= a < b < self.entries@.len() implies (#[trigger] self.entries@[a]).0@
                        != (#[trigger] self.entries@[b]).0@ by {
                        assert(old_entries[a].0@ != old_entries[b].0@);
                    }
                    assert forall|key: Seq<char>| #[trigger] self@.contains_key(key) <==> old(self)@.insert(k, tv).contains_key(key) by {
                        if old(self)@.contains_key(key) && key != k {
                            let j = choose|j: int| 0 <= j < old_entries.len() && #[trigger] old_entries[j].0@ == key;
                            assert(self.entries@[j].0@ == key);
                        }
                        if self@.contains_key(key) && key != k {
                            let j = choose|j: int| 0 <= j < self.entries@.len() && #[trigger] self.entries@[j].0@ == key;
                            assert(old_entries[j].0@ == key);
                        }
                        if key == k {
                            assert(self.entries@[i as int].0@ == key);
                        }
                    }
                    assert forall|key: Seq<char>| #[trigger] self@.contains_key(key) implies self@[key] == old(self)@.insert(k, tv)[key] by {
                        let j = choose|j: int| 0 <= j < self.entries@.len() && #[trigger] self.entries@[j].0@ == key;
                        self.lemma_view_at(j);
                        if key != k {
                            old(self).lemma_view_at(j);
                        }
                    }
                    assert(self@ =~= old(self)@.insert(k, tv));
                }
            },
            None => {
                let ghost old_entries = self.entries@;
                self.entries.push((name, ty));
                proof {
                    assert forall|a: int, b: int|
                        0 <= a < b < self.entries@.len() implies (#[trigger] self.entries@[a]).0@
                        != (#[trigger] self.entries@[b]).0@ by {
                        if b == old_entries.len() {
                            assert(!old(self)@.contains_key(k));
                            if old_entries[a].0@ == k {
                                assert(old(self)@.contains_key(k));
                            }
                        } else {
                            assert(old_entries[a].0@ != old_entries[b].0@);
                        }
                    }
                    assert forall|key: Seq<char>| #[trigger] self@.contains_key(key) <==> old(self)@.insert(k, tv).contains_key(key) by {
                        if old(self)@.contains_key(key) {
                            let j = choose|j: int| 0 <= j < old_entries.len() && #[trigger] old_entries[j].0@ == key;
                            assert(self.entries@[j].0@ == key);
                        }
                        if self@.contains_key(key) && key != k {
                            let j = choose|j: int| 0 <= j < self.entries@.len() && #[trigger] self.entries@[j].0@ == key;
                            assert(old_entries[j].0@ == key);
                        }
                        if key == k {
                            assert(self.entries@[old_entries.len() as int].0@ == key);
                        }
                    }
                    assert forall|key: Seq<char>| #[trigger] self@.contains_key(key) implies self@[key] == old(self)@.insert(k, tv)[key] by {
                        let j = choose|j: int| 0 <= j < self.entries@.len() && #[trigger] self.entries@[j].0@ == key;
                        self.lemma_view_at(j);
                        if key != k {
                            old(self).lemma_view_at(j);
                        }
                    }
                    assert(self@ =~= old(self)@.insert(k, tv));
                }
            },
        }
    }
}

// ==================== Slot layout ====================

/// Ordering measure that puts a struct type above the sums over its fields.
pub open spec fn struct_rank(t: VoType) -> nat {
    match t {
        VoType::Struct(fs) => fs@.len() + 1,
        _ => 0,
    }
}

/// Number of stack slots of `t`, resolving at most `fuel` aliases along any path;
/// `None` when that is not enough, or when a count does not fit in a `u16`.
/// Numbers: one slot for scalars and references, two for `any` and `error`, the
/// element count times the array length (taken modulo 2^16) for arrays, the sum of
/// the fields for structs, and one for an unknown name.
pub open spec fn slot_fuel(t: VoType, al: Map<Seq<char>, VoType>, fuel: nat) -> Option<int>
    decreases fuel, t, struct_rank(t),
{
    match t {
        VoType::Any => Some(2),
        VoType::Array(len, elem) => match slot_fuel(*elem, al, fuel) {
            Some(k) => if k * (len % 65536) <= 65535 { Some(k * (len % 65536)) } else { None },
            None => None,
        },
        VoType::Named(name) => if name@ == "error"@ {
            Some(2)
        } else if al.contains_key(name@) {
            if fuel == 0 { None } else { slot_fuel(al[name@], al, (fuel - 1) as nat) }
        } else {
            Some(1)
        },
        VoType::Struct(fs) => struct_slots(t, al, fuel, fs@.len() as int),
        _ => Some(1),
    }
}

/// Sum of the slot counts of the first `k` fields of the struct type `t`; `None`
/// when one of them is `None` or a partial sum does not fit in a `u16`.
pub open spec fn struct_slots(t: VoType, al: Map<Seq<char>, VoType>, fuel: nat, k: int) -> Option<int>
    decreases fuel, t, k,
{
    match t {
        VoType::Struct(fs) => if k <= 0 || k > fs@.len() {
            Some(0)
        } else {
            match struct_slots(t, al, fuel, k - 1) {
                Some(a) => match slot_fuel(fs@[k - 1], al, fuel) {
                    Some(b) => if a + b <= 65535 { Some(a + b) } else { None },
                    None => None,
                },
                None => None,
            }
        },
        _ => None,
    }
}

/// The slot count of `t` is defined: alias resolution ends and no count overflows.
pub open spec fn slots_defined(t: VoType, al: Map<Seq<char>, VoType>) -> bool {
    exists|f: nat| #[trigger] slot_fuel(t, al, f) is Some
}

/// The slot count of `t` under the aliases `al`.
pub open spec fn slots_of(t: VoType, al: Map<Seq<char>, VoType>) -> int {
    slot_fuel(t, al, choose|f: nat| #[trigger] slot_fuel(t, al, f) is Some)->0
}

/// More fuel does not change a defined slot count.
pub proof fn lemma_slot_fuel_mono(t: VoType, al: Map<Seq<char>, VoType>, f1: nat, f2: nat)
    requires
        f1 <= f2,
        slot_fuel(t, al, f1) is Some,
    ensures
        slot_fuel(t, al, f2) == slot_fuel(t, al, f1),
    decreases f1, t, struct_rank(t),
{
    match t {
        VoType::Array(len, elem) => {
            lemma_slot_fuel_mono(*elem, al, f1, f2);
        },
        VoType::Named(name) => {
            if name@ != "error"@ && al.contains_key(name@) {
                lemma_slot_fuel_mono(al[name@], al, (f1 - 1) as nat, (f2 - 1) as nat);
            }
        },
        VoType::Struct(fs) => {
            lemma_struct_slots_mono(t, al, f1, f2, fs@.len() as int);
        },
        _ => {},
    }
}

/// More fuel does not change a defined field sum.
pub proof fn lemma_struct_slots_mono(t: VoType, al: Map<Seq<char>, VoType>, f1: nat, f2: nat, k: int)
    requires
        f1 <= f2,
        struct_slots(t, al, f1, k) is Some,
    ensures
        struct_slots(t, al, f2, k) == struct_slots(t, al, f1, k),
    decreases f1, t, k,
{
    match t {
        VoType::Struct(fs) => {
            if 0 < k <= fs@.len() {
                lemma_struct_slots_mono(t, al, f1, f2, k - 1);
                lemma_slot_fuel_mono(fs@[k - 1], al, f1, f2);
            }
        },
        _ => {},
    }
}

/// The slot count does not depend on the fuel used to find it.
pub proof fn lemma_slots_of(t: VoType, al: Map<Seq<char>, VoType>, f: nat)
    requires
        slot_fuel(t, al, f) is Some,
    ensures
        slots_defined(t, al),
        slots_of(t, al) == slot_fuel(t, al, f)->0,
{
    let g = choose|g: nat| #[trigger] slot_fuel(t, al, g) is Some;
    if g <= f {
        lemma_slot_fuel_mono(t, al, g, f);
    } else {
        lemma_slot_fuel_mono(t, al, f, g);
    }
}

/// A defined field sum has defined shorter prefixes, no larger, and defined fields.
proof fn lemma_struct_prefix(t: VoType, al: Map<Seq<char>, VoType>, fuel: nat, k: int, j: int)
    requires
        0 <= j <= k,
        struct_slots(t, al, fuel, k) is Some,
        t is Struct,
        k <= t->Struct_0@.len(),
    ensures
        struct_slots(t, al, fuel, j) is Some,
        struct_slots(t, al, fuel, j)->0 <= struct_slots(t, al, fuel, k)->0,
        j < k ==> slot_fuel(t->Struct_0@[j], al, fuel) is Some,
        0 <= struct_slots(t, al, fuel, k)->0 <= 65535,
    decreases k,
{
    if k > 0 {
        if j < k {
            lemma_struct_prefix(t, al, fuel, k - 1, j);
        }
        lemma_struct_prefix(t, al, fuel, k - 1, k - 1);
        lemma_slot_nonneg(t->Struct_0@[k - 1], al, fuel);
    }
}

/// Slot counts are not negative.
proof fn lemma_slot_nonneg(t: VoType, al: Map<Seq<char>, VoType>, fuel: nat)
    requires
        slot_fuel(t, al, fuel) is Some,
    ensures
        0 <= slot_fuel(t, al, fuel)->0 <= 65535,
    decreases fuel, t, struct_rank(t),
{
    match t {
        VoType::Array(len, elem) => {
            lemma_slot_nonneg(*elem, al, fuel);
            let k = slot_fuel(*elem, al, fuel)->0;
            assert(k * (len % 65536) >= 0) by (nonlinear_arith)
                requires
                    k >= 0,
                    len % 65536 >= 0,
            ;
        },
        VoType::Named(name) => {
            if name@ != "error"@ && al.contains_key(name@) {
                lemma_slot_nonneg(al[name@], al, (fuel - 1) as nat);
            }
        },
        VoType::Struct(fs) => {
            lemma_struct_nonneg(t, al, fuel, fs@.len() as int);
        },
        _ => {},
    }
}

proof fn lemma_struct_nonneg(t: VoType, al: Map<Seq<char>, VoType>, fuel: nat, k: int)
    requires
        struct_slots(t, al, fuel, k) is Some,
    ensures
        0 <= struct_slots(t, al, fuel, k)->0 <= 65535,
    decreases fuel, t, k,
{
    match t {
        VoType::Struct(fs) => {
            if 0 < k <= fs@.len() {
                lemma_struct_nonneg(t, al, fuel, k - 1);
                lemma_slot_nonneg(fs@[k - 1], al, fuel);
            }
        },
        _ => {},
    }
}

impl VoType {
    fn slot_count_fuel(&self, type_aliases: &TypeAliases, Ghost(fuel): Ghost<nat>) -> (r: u16)
        requires
            type_aliases.wf(),
            slot_fuel(*self, type_aliases@, fuel) is Some,
        ensures
            r == slot_fuel(*self, type_aliases@, fuel)->0,
        decreases fuel, *self, struct_rank(*self),
    {
        proof {
            lemma_slot_nonneg(*self, type_aliases@, fuel);
        }
        match self {
            VoType::Any => 2,
            VoType::Array(len, elem) => {
                let e = elem.slot_count_fuel(type_aliases, Ghost(fuel));
                let l: u16 = (*len % 65536) as u16;
                e * l
            },
            VoType::Named(name) => {
                let error_name = String::from_str("error");
                proof {
                    reveal_strlit("error");
                }
                if *name == error_name {
                    2
                } else {
                    match type_aliases.get(name) {
                        Some(underlying) => underlying.slot_count_fuel(type_aliases, Ghost((fuel - 1) as nat)),
                        None => 1,
                    }
                }
            },
            VoType::Struct(fields) => {
                let ghost t = *self;
                let mut sum: u16 = 0;
                let mut i: usize = 0;
                proof {
                    lemma_struct_prefix(t, type_aliases@, fuel, fields@.len() as int, 0);
                }
                while i < fields.len()
                    invariant
                        t == *self,
                        t == VoType::Struct(*fields),
                        type_aliases.wf(),
                        0 <= i <= fields@.len(),
                        struct_slots(t, type_aliases@, fuel, fields@.len() as int) is Some,
                        struct_slots(t, type_aliases@, fuel, i as int) == Some(sum as int),
                    decreases fields.len() - i,
                {
                    proof {
                        lemma_struct_prefix(t, type_aliases@, fuel, fields@.len() as int, i + 1);
                        lemma_struct_prefix(t, type_aliases@, fuel, fields@.len() as int, i as int);
                        assert(decreases_to!(t => fields@[i as int]));
                    }
                    let k = fields[i].slot_count_fuel(type_aliases, Ghost(fuel));
                    sum = sum + k;
                    i = i + 1;
                }
                sum
            },
            _ => 1,
        }
    }

    /// Number of stack slots a value of this type occupies, with named types resolved
    /// through `type_aliases`.
    pub fn slot_count(&self, type_aliases: &TypeAliases) -> (r: u16)
        requires
            type_aliases.wf(),
            slots_defined(*self, type_aliases@),
        ensures
            r == slots_of(*self, type_aliases@),
    {
        let ghost f = choose|f: nat| #[trigger] slot_fuel(*self, type_aliases@, f) is Some;
        self.slot_count_fuel(type_aliases, Ghost(f))
    }
}

// ==================== Rust types of extern implementations ====================

/// The Rust type an extern implementation uses for a Vo type.
pub open spec fn rust_type_for(t: VoType) -> Seq<char> {
    match t {
        VoType::Int | VoType::Int64 => "i64"@,
        VoType::Int8 => "i8"@,
        VoType::Int16 => "i16"@,
        VoType::Int32 => "i32"@,
        VoType::Uint | VoType::Uint64 => "u64"@,
        VoType::Uint8 => "u8"@,
        VoType::Uint16 => "u16"@,
        VoType::Uint32 => "u32"@,
        VoType::Float32 => "f32"@,
        VoType::Float64 => "f64"@,
        VoType::Bool => "bool"@,
        VoType::String => "&str"@,
        VoType::Any => "any"@,
        VoType::Slice(inner) => if *inner is Uint8 { "&[u8]"@ } else { "GcRef"@ },
        VoType::Variadic(_) => "variadic"@,
        VoType::Struct(_) => "struct"@,
        _ => "GcRef"@,
    }
}

impl VoType {
    /// The Rust type an extern implementation must use for this type.
    pub fn expected_rust_type(&self) -> (r: &'static str)
        ensures
            r@ == rust_type_for(*self),
    {
        match self {
            VoType::Int | VoType::Int64 => "i64",
            VoType::Int8 => "i8",
            VoType::Int16 => "i16",
            VoType::Int32 => "i32",
            VoType::Uint | VoType::Uint64 => "u64",
            VoType::Uint8 => "u8",
            VoType::Uint16 => "u16",
            VoType::Uint32 => "u32",
            VoType::Float32 => "f32",
            VoType::Float64 => "f64",
            VoType::Bool => "bool",
            VoType::String => "&str",
            VoType::Any => "any",
            VoType::Pointer(_) => "GcRef",
            VoType::Slice(inner) => match &**inner {
                VoType::Uint8 => "&[u8]",
                _ => "GcRef",
            },
            VoType::Array(_, _) => "GcRef",
            VoType::MapOf(_, _) => "GcRef",
            VoType::Chan(_, _) => "GcRef",
            VoType::Func(_, _) => "GcRef",
            VoType::Named(_) => "GcRef",
            VoType::Variadic(_) => "variadic",
            VoType::Struct(_) => "struct",
        }
    }
}

// ==================== Struct layout ====================

/// Sum of the slot counts of the first `k` fields; `None` when a field's count is
/// not defined or a partial sum does not fit in a `u16`.
pub open spec fn field_sum(fs: Seq<VoStructField>, al: Map<Seq<char>, VoType>, k: int) -> Option<int>
    decreases k,
{
    if k <= 0 || k > fs.len() {
        Some(0)
    } else {
        match field_sum(fs, al, k - 1) {
            Some(a) => if slots_defined(fs[k - 1].ty, al) && a + slots_of(fs[k - 1].ty, al) <= 65535 {
                Some(a + slots_of(fs[k - 1].ty, al))
            } else {
                None
            },
            None => None,
        }
    }
}

proof fn lemma_field_prefix(fs: Seq<VoStructField>, al: Map<Seq<char>, VoType>, k: int, j: int)
    requires
        0 <= j <= k <= fs.len(),
        field_sum(fs, al, k) is Some,
    ensures
        field_sum(fs, al, j) is Some,
        field_sum(fs, al, j)->0 <= field_sum(fs, al, k)->0 <= 65535,
        j < k ==> slots_defined(fs[j].ty, al),
        0 <= field_sum(fs, al, j)->0,
    decreases k,
{
    if k > 0 {
        if j < k {
            lemma_field_prefix(fs, al, k - 1, j);
        }
        lemma_field_prefix(fs, al, k - 1, k - 1);
        let f = choose|f: nat| #[trigger] slot_fuel(fs[k - 1].ty, al, f) is Some;
        lemma_slot_nonneg(fs[k - 1].ty, al, f);
    }
}

impl VoStructDef {
    /// Slot offset of each field: the sum of the slot counts of the fields before it.
    pub fn field_offsets(&self, type_aliases: &TypeAliases) -> (r: Vec<u16>)
        requires
            type_aliases.wf(),
            field_sum(self.fields@, type_aliases@, self.fields@.len() as int) is Some,
        ensures
            r@.len() == self.fields@.len(),
            forall|i: int| 0 <= i < r@.len() ==> r@[i] == field_sum(self.fields@, type_aliases@, i)->0,
    {
        let ghost fs = self.fields@;
        let mut offsets: Vec<u16> = Vec::new();
        let mut current: u16 = 0;
        let mut i: usize = 0;
        while i < self.fields.len()
            invariant
                fs == self.fields@,
                type_aliases.wf(),
                field_sum(fs, type_aliases@, fs.len() as int) is Some,
                0 <= i <= fs.len(),
                offsets@.len() == i,
                current == field_sum(fs, type_aliases@, i as int)->0,
                forall|j: int| 0 <= j < i ==> offsets@[j] == field_sum(fs, type_aliases@, j)->0,
            decreases self.fields.len() - i,
        {
            proof {
                lemma_field_prefix(fs, type_aliases@, fs.len() as int, i as int);
                lemma_field_prefix(fs, type_aliases@, fs.len() as int, i + 1);
            }
            offsets.push(current);
            let k = self.fields[i].ty.slot_count(type_aliases);
            current = current + k;
            i = i + 1;
        }
        offsets
    }

    /// Total slot count of the struct: the sum over its fields.
    pub fn total_slots(&self, type_aliases: &TypeAliases) -> (r: u16)
        requires
            type_aliases.wf(),
            field_sum(self.fields@, type_aliases@, self.fields@.len() as int) is Some,
        ensures
            r == field_sum(self.fields@, type_aliases@, self.fields@.len() as int)->0,
    {
        let ghost fs = self.fields@;
        let mut total: u16 = 0;
        let mut i: usize = 0;
        while i < self.fields.len()
            invariant
                fs == self.fields@,
                type_aliases.wf(),
                field_sum(fs, type_aliases@, fs.len() as int) is Some,
                0 <= i <= fs.len(),
                total == field_sum(fs, type_aliases@, i as int)->0,
            decreases self.fields.len() - i,
        {
            proof {
                lemma_field_prefix(fs, type_aliases@, fs.len() as int, i as int);
                lemma_field_prefix(fs, type_aliases@, fs.len() as int, i + 1);
            }
            let k = self.fields[i].ty.slot_count(type_aliases);
            total = total + k;
            i = i + 1;
        }
        total
    }
}

/// The total slot count of a struct is the offset of its last field plus that
/// field's slot count, and the first field sits at offset 0.
pub proof fn lemma_total_after_last_field(fs: Seq<VoStructField>, al: Map<Seq<char>, VoType>)
    requires
        fs.len() > 0,
        field_sum(fs, al, fs.len() as int) is Some,
    ensures
        field_sum(fs, al, 0) == Some(0int),
        field_sum(fs, al, fs.len() as int)->0 == field_sum(fs, al, fs.len() - 1)->0 + slots_of(fs.last().ty, al),
{
}

// ==================== Type text ====================

/// Ordering measure that puts a function type above the texts of its type lists.
pub open spec fn list_rank(t: VoType) -> nat {
    match t {
        VoType::Func(ps, rs) => ps@.len() + rs@.len() + 1,
        _ => 0,
    }
}

/// Vo source text of a type (`struct{N fields}` for struct types).
pub open spec fn type_text(t: VoType) -> Seq<char>
    decreases t, list_rank(t),
{
    match t {
        VoType::Int => "int"@,
        VoType::Int8 => "int8"@,
        VoType::Int16 => "int16"@,
        VoType::Int32 => "int32"@,
        VoType::Int64 => "int64"@,
        VoType::Uint => "uint"@,
        VoType::Uint8 => "uint8"@,
        VoType::Uint16 => "uint16"@,
        VoType::Uint32 => "uint32"@,
        VoType::Uint64 => "uint64"@,
        VoType::Float32 => "float32"@,
        VoType::Float64 => "float64"@,
        VoType::Bool => "bool"@,
        VoType::String => "string"@,
        VoType::Any => "any"@,
        VoType::Named(name) => name@,
        VoType::Pointer(inner) => seq!['*'] + type_text(*inner),
        VoType::Slice(inner) => "[]"@ + type_text(*inner),
        VoType::Array(len, inner) => seq!['['] + strbuf::radix_digits(len as nat, 10) + seq![']'] + type_text(*inner),
        VoType::MapOf(k, v) => "map["@ + type_text(*k) + seq![']'] + type_text(*v),
        VoType::Chan(dir, inner) => match dir {
            ChanDir::Both => "chan "@ + type_text(*inner),
            ChanDir::Send => "chan<- "@ + type_text(*inner),
            ChanDir::Recv => "<-chan "@ + type_text(*inner),
        },
        VoType::Func(ps, rs) => "func("@ + list_text(t, false, ps@.len() as int) + seq![')'] + (
        if rs@.len() == 0 {
            Seq::<char>::empty()
        } else if rs@.len() == 1 {
            seq![' '] + type_text(rs@[0])
        } else {
            " ("@ + list_text(t, true, rs@.len() as int) + seq![')']
        }),
        VoType::Variadic(inner) => "..."@ + type_text(*inner),
        VoType::Struct(fs) => "struct{"@ + strbuf::radix_digits(fs@.len(), 10) + " fields}"@,
    }
}

/// Texts of the first `k` parameter types (`results` false) or result types of the
/// function type `t`, separated by `, `.
pub open spec fn list_text(t: VoType, results: bool, k: int) -> Seq<char>
    decreases t, k,
{
    match t {
        VoType::Func(ps, rs) => {
            let l = if results { rs@ } else { ps@ };
            if k <= 0 || k > l.len() {
                Seq::<char>::empty()
            } else if k == 1 {
                type_text(l[0])
            } else {
                list_text(t, results, k - 1) + ", "@ + type_text(l[k - 1])
            }
        },
        _ => Seq::<char>::empty(),
    }
}

impl VoType {
    fn push_list_text(&self, list: &Vec<VoType>, results: bool, out: &mut String)
        requires
            self matches VoType::Func(ps, rs) && (if results { rs@ == list@ } else { ps@ == list@ }),
        ensures
            final(out)@ == old(out)@ + list_text(*self, results, list@.len() as int),
        decreases *self, list@.len(),
    {
        let ghost t = *self;
        let mut i: usize = 0;
        while i < list.len()
            invariant
                t == *self,
                t matches VoType::Func(ps, rs) && (if results { rs@ == list@ } else { ps@ == list@ }),
                0 <= i <= list@.len(),
                out@ == old(out)@ + list_text(t, results, i as int),
            decreases list.len() - i,
        {
            if i > 0 {
                push_str(out, ", ");
                proof {
                    reveal_strlit(", ");
                }
            }
            proof {
                assert(decreases_to!(t => list@[i as int]));
            }
            let ghost before = out@;
            list[i].push_type_text(out);
            proof {
                if i == 0 {
                    assert(list_text(t, results, 1) == type_text(list@[0]));
                } else {
                    assert(list_text(t, results, i + 1) == list_text(t, results, i as int) + ", "@ + type_text(list@[i as int]));
                }
            }
            i = i + 1;
        }
    }

    /// Append the Vo source text of this type to `out`.
    pub fn push_type_text(&self, out: &mut String)
        ensures
            final(out)@ == old(out)@ + type_text(*self),
        decreases *self, list_rank(*self),
    {
        match self {
            VoType::Int => push_str(out, "int"),
            VoType::Int8 => push_str(out, "int8"),
            VoType::Int16 => push_str(out, "int16"),
            VoType::Int32 => push_str(out, "int32"),
            VoType::Int64 => push_str(out, "int64"),
            VoType::Uint => push_str(out, "uint"),
            VoType::Uint8 => push_str(out, "uint8"),
            VoType::Uint16 => push_str(out, "uint16"),
            VoType::Uint32 => push_str(out, "uint32"),
            VoType::Uint64 => push_str(out, "uint64"),
            VoType::Float32 => push_str(out, "float32"),
            VoType::Float64 => push_str(out, "float64"),
            VoType::Bool => push_str(out, "bool"),
            VoType::String => push_str(out, "string"),
            VoType::Any => push_str(out, "any"),
            VoType::Named(name) => push_str(out, name.as_str()),
            VoType::Pointer(inner) => {
                push_char(out, '*');
                inner.push_type_text(out);
            },
            VoType::Slice(inner) => {
                push_str(out, "[]");
                inner.push_type_text(out);
            },
            VoType::Array(len, inner) => {
                push_char(out, '[');
                push_radix(out, *len as u64, 10);
                push_char(out, ']');
                inner.push_type_text(out);
            },
            VoType::MapOf(k, v) => {
                push_str(out, "map[");
                k.push_type_text(out);
                push_char(out, ']');
                v.push_type_text(out);
            },
            VoType::Chan(dir, inner) => {
                match dir {
                    ChanDir::Both => push_str(out, "chan "),
                    ChanDir::Send => push_str(out, "chan<- "),
                    ChanDir::Recv => push_str(out, "<-chan "),
                }
                inner.push_type_text(out);
            },
            VoType::Func(params, results) => {
                push_str(out, "func(");
                self.push_list_text(params, false, out);
                push_char(out, ')');
                if results.len() == 1 {
                    push_char(out, ' ');
                    proof {
                        assert(decreases_to!(*self => results@[0]));
                    }
                    results[0].push_type_text(out);
                } else if results.len() > 1 {
                    push_str(out, " (");
                    self.push_list_text(results, true, out);
                    push_char(out, ')');
                }
            },
            VoType::Variadic(inner) => {
                push_str(out, "...");
                inner.push_type_text(out);
            },
            VoType::Struct(fields) => {
                push_str(out, "struct{");
                push_radix(out, fields.len() as u64, 10);
                push_str(out, " fields}");
            },
        }
    }

    /// The Vo source text of this type.
    pub fn type_string(&self) -> (r: String)
        ensures
            r@ == type_text(*self),
    {
        let mut out = String::new();
        self.push_type_text(&mut out);
        out
    }
}

// ==================== Signatures from Rust functions ====================

/// What signature checking reads of a Rust type.
pub enum RustTypeShape {
    /// A path type, by the name of its last segment (empty when it has none).
    Path(String),
    /// A reference, with the last segment of the referenced type when that is a path.
    Ref(Option<String>),
    /// A tuple type with its element types.
    Tuple(Vec<RustTypeShape>),
    /// Any other type.
    Other,
}

/// What signature checking reads of an argument of a Rust function.
pub enum RustFnArg {
    /// `self`, `&self` or `&mut self`.
    Receiver,
    /// A typed argument, with the name of its pattern when the pattern is a name.
    Typed(Option<String>, RustTypeShape),
}

/// What signature checking reads of a Rust function declaration.
pub struct RustFnDecl {
    pub name: String,
    pub inputs: Vec<RustFnArg>,
    /// The declared return type; `None` for `()` by default.
    pub output: Option<RustTypeShape>,
}

/// The Vo type that stands for a Rust type named `n`.
pub open spec fn vo_of_rust_name(n: Seq<char>) -> VoType {
    if n == "i64"@ || n == "isize"@ {
        VoType::Int64
    } else if n == "i32"@ {
        VoType::Int32
    } else if n == "i16"@ {
        VoType::Int16
    } else if n == "i8"@ {
        VoType::Int8
    } else if n == "u64"@ || n == "usize"@ {
        VoType::Uint64
    } else if n == "u32"@ {
        VoType::Uint32
    } else if n == "u16"@ {
        VoType::Uint16
    } else if n == "u8"@ {
        VoType::Uint8
    } else if n == "f64"@ {
        VoType::Float64
    } else if n == "f32"@ {
        VoType::Float32
    } else if n == "bool"@ {
        VoType::Bool
    } else if n == "String"@ {
        VoType::String
    } else {
        VoType::Any
    }
}

/// The Vo type that stands for a Rust type: by name for path types, `string` for
/// `&str`, `any` otherwise.
pub open spec fn vo_of_rust(t: RustTypeShape) -> VoType {
    match t {
        RustTypeShape::Path(n) => vo_of_rust_name(n@),
        RustTypeShape::Ref(Some(n)) => if n@ == "str"@ { VoType::String } else { VoType::Any },
        _ => VoType::Any,
    }
}

/// A Rust primitive keeps its width and kind in Vo: the Rust type that an extern
/// implementation uses for the Vo type of a Rust type name is that name again, for
/// every name that has a Vo type of its own, except that `isize` and `usize` are taken
/// as their 64-bit forms and `String` is received as `&str`.
pub proof fn lemma_rust_name_roundtrip(n: Seq<char>)
    requires
        !(vo_of_rust_name(n) is Any),
        n != "isize"@,
        n != "usize"@,
        n != "String"@,
    ensures
        rust_type_for(vo_of_rust_name(n)) == n,
{
}

/// Going from a Vo type to the Rust type of its extern implementation and back gives
/// the same type, for every sized number type and `bool` (the width and the kind are
/// kept).
pub proof fn lemma_rust_type_roundtrip(t: VoType)
    requires
        t is Int8 || t is Int16 || t is Int32 || t is Int64 || t is Uint8 || t is Uint16
            || t is Uint32 || t is Uint64 || t is Float32 || t is Float64 || t is Bool,
    ensures
        vo_of_rust_name(rust_type_for(t)) == t,
{
    reveal_strlit("i64");
    reveal_strlit("isize");
    reveal_strlit("i32");
    reveal_strlit("i16");
    reveal_strlit("i8");
    reveal_strlit("u64");
    reveal_strlit("usize");
    reveal_strlit("u32");
    reveal_strlit("u16");
    reveal_strlit("u8");
    reveal_strlit("f64");
    reveal_strlit("f32");
    reveal_strlit("bool");
    reveal_strlit("String");
    match t {
        VoType::Int64 => {
        },
        VoType::Int32 => {
            assert("i32"@ != "i64"@) by { assert("i32"@[1] != "i64"@[1]); }
            assert("i32"@ != "isize"@) by { assert("i32"@.len() != "isize"@.len()); }
        },
        VoType::Int16 => {
            assert("i16"@ != "i64"@) by { assert("i16"@[1] != "i64"@[1]); }
            assert("i16"@ != "isize"@) by { assert("i16"@.len() != "isize"@.len()); }
            assert("i16"@ != "i32"@) by { assert("i16"@[1] != "i32"@[1]); }
        },
        VoType::Int8 => {
            assert("i8"@ != "i64"@) by { assert("i8"@.len() != "i64"@.len()); }
            assert("i8"@ != "isize"@) by { assert("i8"@.len() != "isize"@.len()); }
            assert("i8"@ != "i32"@) by { assert("i8"@.len() != "i32"@.len()); }
            assert("i8"@ != "i16"@) by { assert("i8"@.len() != "i16"@.len()); }
        },
        VoType::Uint64 => {
            assert("u64"@ != "i64"@) by { assert("u64"@[0] != "i64"@[0]); }
            assert("u64"@ != "isize"@) by { assert("u64"@.len() != "isize"@.len()); }
            assert("u64"@ != "i32"@) by { assert("u64"@[0] != "i32"@[0]); }
            assert("u64"@ != "i16"@) by { assert("u64"@[0] != "i16"@[0]); }
            assert("u64"@ != "i8"@) by { assert("u64"@.len() != "i8"@.len()); }
        },
        VoType::Uint32 => {
            assert("u32"@ != "i64"@) by { assert("u32"@[0] != "i64"@[0]); }
            assert("u32"@ != "isize"@) by { assert("u32"@.len() != "isize"@.len()); }
            assert("u32"@ != "i32"@) by { assert("u32"@[0] != "i32"@[0]); }
            assert("u32"@ != "i16"@) by { assert("u32"@[0] != "i16"@[0]); }
            assert("u32"@ != "i8"@) by { assert("u32"@.len() != "i8"@.len()); }
            assert("u32"@ != "u64"@) by { assert("u32"@[1] != "u64"@[1]); }
            assert("u32"@ != "usize"@) by { assert("u32"@.len() != "usize"@.len()); }
        },
        VoType::Uint16 => {
            assert("u16"@ != "i64"@) by { assert("u16"@[0] != "i64"@[0]); }
            assert("u16"@ != "isize"@) by { assert("u16"@.len() != "isize"@.len()); }
            assert("u16"@ != "i32"@) by { assert("u16"@[0] != "i32"@[0]); }
            assert("u16"@ != "i16"@) by { assert("u16"@[0] != "i16"@[0]); }
            assert("u16"@ != "i8"@) by { assert("u16"@.len() != "i8"@.len()); }
            assert("u16"@ != "u64"@) by { assert("u16"@[1] != "u64"@[1]); }
            assert("u16"@ != "usize"@) by { assert("u16"@.len() != "usize"@.len()); }
            assert("u16"@ != "u32"@) by { assert("u16"@[1] != "u32"@[1]); }
        },
        VoType::Uint8 => {
            assert("u8"@ != "i64"@) by { assert("u8"@.len() != "i64"@.len()); }
            assert("u8"@ != "isize"@) by { assert("u8"@.len() != "isize"@.len()); }
            assert("u8"@ != "i32"@) by { assert("u8"@.len() != "i32"@.len()); }
            assert("u8"@ != "i16"@) by { assert("u8"@.len() != "i16"@.len()); }
            assert("u8"@ != "i8"@) by { assert("u8"@[0] != "i8"@[0]); }
            assert("u8"@ != "u64"@) by { assert("u8"@.len() != "u64"@.len()); }
            assert("u8"@ != "usize"@) by { assert("u8"@.len() != "usize"@.len()); }
            assert("u8"@ != "u32"@) by { assert("u8"@.len() != "u32"@.len()); }
            assert("u8"@ != "u16"@) by { assert("u8"@.len() != "u16"@.len()); }
        },
        VoType::Float64 => {
            assert("f64"@ != "i64"@) by { assert("f64"@[0] != "i64"@[0]); }
            assert("f64"@ != "isize"@) by { assert("f64"@.len() != "isize"@.len()); }
            assert("f64"@ != "i32"@) by { assert("f64"@[0] != "i32"@[0]); }
            assert("f64"@ != "i16"@) by { assert("f64"@[0] != "i16"@[0]); }
            assert("f64"@ != "i8"@) by { assert("f64"@.len() != "i8"@.len()); }
            assert("f64"@ != "u64"@) by { assert("f64"@[0] != "u64"@[0]); }
            assert("f64"@ != "usize"@) by { assert("f64"@.len() != "usize"@.len()); }
            assert("f64"@ != "u32"@) by { assert("f64"@[0] != "u32"@[0]); }
            assert("f64"@ != "u16"@) by { assert("f64"@[0] != "u16"@[0]); }
            assert("f64"@ != "u8"@) by { assert("f64"@.len() != "u8"@.len()); }
        },
        VoType::Float32 => {
            assert("f32"@ != "i64"@) by { assert("f32"@[0] != "i64"@[0]); }
            assert("f32"@ != "isize"@) by { assert("f32"@.len() != "isize"@.len()); }
            assert("f32"@ != "i32"@) by { assert("f32"@[0] != "i32"@[0]); }
            assert("f32"@ != "i16"@) by { assert("f32"@[0] != "i16"@[0]); }
            assert("f32"@ != "i8"@) by { assert("f32"@.len() != "i8"@.len()); }
            assert("f32"@ != "u64"@) by { assert("f32"@[0] != "u64"@[0]); }
            assert("f32"@ != "usize"@) by { assert("f32"@.len() != "usize"@.len()); }
            assert("f32"@ != "u32"@) by { assert("f32"@[0] != "u32"@[0]); }
            assert("f32"@ != "u16"@) by { assert("f32"@[0] != "u16"@[0]); }
            assert("f32"@ != "u8"@) by { assert("f32"@.len() != "u8"@.len()); }
            assert("f32"@ != "f64"@) by { assert("f32"@[1] != "f64"@[1]); }
        },
        VoType::Bool => {
            assert("bool"@ != "i64"@) by { assert("bool"@.len() != "i64"@.len()); }
            assert("bool"@ != "isize"@) by { assert("bool"@.len() != "isize"@.len()); }
            assert("bool"@ != "i32"@) by { assert("bool"@.len() != "i32"@.len()); }
            assert("bool"@ != "i16"@) by { assert("bool"@.len() != "i16"@.len()); }
            assert("bool"@ != "i8"@) by { assert("bool"@.len() != "i8"@.len()); }
            assert("bool"@ != "u64"@) by { assert("bool"@.len() != "u64"@.len()); }
            assert("bool"@ != "usize"@) by { assert("bool"@.len() != "usize"@.len()); }
            assert("bool"@ != "u32"@) by { assert("bool"@.len() != "u32"@.len()); }
            assert("bool"@ != "u16"@) by { assert("bool"@.len() != "u16"@.len()); }
            assert("bool"@ != "u8"@) by { assert("bool"@.len() != "u8"@.len()); }
            assert("bool"@ != "f64"@) by { assert("bool"@.len() != "f64"@.len()); }
            assert("bool"@ != "f32"@) by { assert("bool"@.len() != "f32"@.len()); }
        },
        _ => {},
    }
}

fn name_is(s: &String, lit: &str) -> (r: bool)
    ensures
        r == (s@ == lit@),
{
    let l = String::from_str(lit);
    *s == l
}

/// The Vo type that stands for a Rust type.
pub fn rust_type_to_vo(ty: &RustTypeShape) -> (r: VoType)
    ensures
        r == vo_of_rust(*ty),
{
    match ty {
        RustTypeShape::Path(n) => {
            if name_is(n, "i64") || name_is(n, "isize") {
                VoType::Int64
            } else if name_is(n, "i32") {
                VoType::Int32
            } else if name_is(n, "i16") {
                VoType::Int16
            } else if name_is(n, "i8") {
                VoType::Int8
            } else if name_is(n, "u64") || name_is(n, "usize") {
                VoType::Uint64
            } else if name_is(n, "u32") {
                VoType::Uint32
            } else if name_is(n, "u16") {
                VoType::Uint16
            } else if name_is(n, "u8") {
                VoType::Uint8
            } else if name_is(n, "f64") {
                VoType::Float64
            } else if name_is(n, "f32") {
                VoType::Float32
            } else if name_is(n, "bool") {
                VoType::Bool
            } else if name_is(n, "String") {
                VoType::String
            } else {
                VoType::Any
            }
        },
        RustTypeShape::Ref(Some(n)) => {
            if name_is(n, "str") {
                VoType::String
            } else {
                VoType::Any
            }
        },
        _ => VoType::Any,
    }
}

/// The typed arguments of a Rust function, receivers left out.
pub open spec fn typed_args(args: Seq<RustFnArg>) -> Seq<RustFnArg>
    decreases args.len(),
{
    if args.len() == 0 {
        Seq::empty()
    } else if args.last() is Receiver {
        typed_args(args.drop_last())
    } else {
        typed_args(args.drop_last()).push(args.last())
    }
}

/// A parameter stands for a typed argument: same name (empty when the pattern is
/// not a name) and the Vo type of its Rust type.
pub open spec fn param_matches(p: VoParam, a: RustFnArg) -> bool {
    match a {
        RustFnArg::Typed(n, t) => p.name@ == (match n {
            Some(s) => s@,
            None => Seq::<char>::empty(),
        }) && p.ty == vo_of_rust(t),
        RustFnArg::Receiver => false,
    }
}

/// The result types stand for a Rust return type: none for `()`, one per element
/// of a tuple, else one.
pub open spec fn results_match(rs: Seq<VoType>, output: Option<RustTypeShape>) -> bool {
    match output {
        None => rs.len() == 0,
        Some(RustTypeShape::Tuple(elems)) => rs.len() == elems@.len() && forall|i: int|
            0 <= i < rs.len() ==> rs[i] == vo_of_rust(#[trigger] elems@[i]),
        Some(t) => rs == seq![vo_of_rust(t)],
    }
}

impl VoFuncSig {
    /// A signature made from a Rust function: one parameter per typed argument and
    /// the results of its return type.
    pub fn from_rust_fn(func: &RustFnDecl) -> (r: Self)
        ensures
            r.name@ == func.name@,
            r.params@.len() == typed_args(func.inputs@).len(),
            forall|i: int| 0 <= i < r.params@.len() ==> param_matches(#[trigger] r.params@[i], typed_args(func.inputs@)[i]),
            results_match(r.results@, func.output),
    {
        let mut params: Vec<VoParam> = Vec::new();
        let mut i: usize = 0;
        while i < func.inputs.len()
            invariant
                0 <= i <= func.inputs@.len(),
                params@.len() == typed_args(func.inputs@.subrange(0, i as int)).len(),
                forall|j: int| 0 <= j < params@.len() ==> param_matches(#[trigger] params@[j], typed_args(func.inputs@.subrange(0, i as int))[j]),
            decreases func.inputs.len() - i,
        {
            let ghost pre = func.inputs@.subrange(0, i as int);
            assert(func.inputs@.subrange(0, i + 1).drop_last() == pre);
            match &func.inputs[i] {
                RustFnArg::Receiver => {},
                RustFnArg::Typed(n, t) => {
                    let name = match n {
                        Some(s) => s.clone(),
                        None => String::new(),
                    };
                    params.push(VoParam { name, ty: rust_type_to_vo(t) });
                },
            }
            i = i + 1;
        }
        assert(func.inputs@.subrange(0, func.inputs@.len() as int) == func.inputs@);
        let results: Vec<VoType> = match &func.output {
            None => Vec::new(),
            Some(RustTypeShape::Tuple(elems)) => {
                let mut rs: Vec<VoType> = Vec::new();
                let mut k: usize = 0;
                while k < elems.len()
                    invariant
                        0 <= k <= elems@.len(),
                        rs@.len() == k,
                        forall|j: int| 0 <= j < k ==> rs@[j] == vo_of_rust(#[trigger] elems@[j]),
                    decreases elems.len() - k,
                {
                    rs.push(rust_type_to_vo(&elems[k]));
                    k = k + 1;
                }
                rs
            },
            Some(t) => {
                let mut rs: Vec<VoType> = Vec::new();
                rs.push(rust_type_to_vo(t));
                assert(rs@ == seq![vo_of_rust(*t)]);
                rs
            },
        };
        VoFuncSig { name: func.name.clone(), params, results }
    }
}


// ==================== Types from type expressions ====================

/// What type conversion reads of a Vo type expression, with names resolved to their
/// text (empty when the interner has none).
pub enum TypeExprShape {
    /// A type name.
    Ident(String),
    /// `pkg.Name`.
    Selector(String, String),
    /// `[N]T`, with the raw text of `N` when it is an integer literal.
    Array(Option<String>, Box<TypeExprShape>),
    /// `[]T`.
    Slice(Box<TypeExprShape>),
    /// `map[K]V`.
    MapOf(Box<TypeExprShape>, Box<TypeExprShape>),
    /// `chan T`, `chan<- T` or `<-chan T`.
    Chan(ChanDir, Box<TypeExprShape>),
    /// `func(..) ..`: each parameter group with its number of names, and the result types.
    Func(Vec<(usize, TypeExprShape)>, Vec<TypeExprShape>),
    /// `struct{..}`: each field group with its number of names (0 for an embedded field).
    Struct(Vec<(usize, TypeExprShape)>),
    /// `*T`.
    Pointer(Box<TypeExprShape>),
    /// `interface{..}`.
    Interface,
}

/// The predeclared type a name stands for, if it is one (`error` is an interface,
/// taken as `any`; `rune` is `int32`, `byte` is `uint8`).
pub open spec fn predeclared_type(n: Seq<char>) -> Option<VoType> {
    if n == "int"@ {
        Some(VoType::Int)
    } else if n == "int8"@ {
        Some(VoType::Int8)
    } else if n == "int16"@ {
        Some(VoType::Int16)
    } else if n == "int32"@ || n == "rune"@ {
        Some(VoType::Int32)
    } else if n == "int64"@ {
        Some(VoType::Int64)
    } else if n == "uint"@ {
        Some(VoType::Uint)
    } else if n == "uint8"@ || n == "byte"@ {
        Some(VoType::Uint8)
    } else if n == "uint16"@ {
        Some(VoType::Uint16)
    } else if n == "uint32"@ {
        Some(VoType::Uint32)
    } else if n == "uint64"@ {
        Some(VoType::Uint64)
    } else if n == "float32"@ {
        Some(VoType::Float32)
    } else if n == "float64"@ {
        Some(VoType::Float64)
    } else if n == "bool"@ {
        Some(VoType::Bool)
    } else if n == "string"@ {
        Some(VoType::String)
    } else if n == "any"@ || n == "error"@ {
        Some(VoType::Any)
    } else {
        None
    }
}

/// The length of an array type: its literal parsed as `usize`, 0 when it is no
/// literal or does not parse.
pub open spec fn array_len_of(lit: Option<String>) -> usize {
    match lit {
        Some(s) => match vo_const::parse_usize_spec(s@) {
            Some(n) => n,
            None => 0,
        },
        None => 0,
    }
}

/// Each name of a group gets its own entry; a group without names gets one.
pub open spec fn group_count(n: usize) -> int {
    if n == 0 { 1 } else { n as int }
}

/// Number of entries the first `k` groups expand to.
pub open spec fn group_start(gs: Seq<(usize, TypeExprShape)>, k: int) -> int
    decreases k,
{
    if k <= 0 { 0 } else { group_start(gs, k - 1) + group_count(gs[k - 1].0) }
}

proof fn lemma_group_start_mono(gs: Seq<(usize, TypeExprShape)>, a: int, b: int)
    requires
        0 <= a <= b,
    ensures
        group_start(gs, a) <= group_start(gs, b),
    decreases b - a,
{
    if a < b {
        lemma_group_start_mono(gs, a, b - 1);
    }
}

/// The Vo type `v` stands for the type expression `t`: predeclared names as their
/// types, other names and selectors as named types, and each composite type built
/// from the types of its parts, a parameter or field group repeated once per name.
pub open spec fn type_expr_denotes(t: TypeExprShape, v: VoType) -> bool
    decreases t,
{
    match t {
        TypeExprShape::Ident(n) => match predeclared_type(n@) {
            Some(k) => v == k,
            None => v matches VoType::Named(s) && s@ == n@,
        },
        TypeExprShape::Selector(p, n) => v matches VoType::Named(s) && s@ == p@ + seq!['.'] + n@,
        TypeExprShape::Array(lit, e) => v matches VoType::Array(len, ve) && len == array_len_of(lit)
            && type_expr_denotes(*e, *ve),
        TypeExprShape::Slice(e) => v matches VoType::Slice(ve) && type_expr_denotes(*e, *ve),
        TypeExprShape::MapOf(k, e) => v matches VoType::MapOf(vk, ve) && type_expr_denotes(*k, *vk)
            && type_expr_denotes(*e, *ve),
        TypeExprShape::Chan(d, e) => v matches VoType::Chan(vd, ve) && vd == d && type_expr_denotes(*e, *ve),
        TypeExprShape::Func(ps, rs) => v matches VoType::Func(vps, vrs)
            && vps@.len() == group_start(ps@, ps@.len() as int)
            && (forall|k: int, j: int| 0 <= k < ps@.len() && group_start(ps@, k) <= j < group_start(ps@, k + 1)
                ==> type_expr_denotes(#[trigger] ps@[k].1, #[trigger] vps@[j]))
            && vrs@.len() == rs@.len()
            && (forall|i: int| 0 <= i < rs@.len() ==> type_expr_denotes(#[trigger] rs@[i], vrs@[i])),
        TypeExprShape::Struct(fs) => v matches VoType::Struct(vfs)
            && vfs@.len() == group_start(fs@, fs@.len() as int)
            && (forall|k: int, j: int| 0 <= k < fs@.len() && group_start(fs@, k) <= j < group_start(fs@, k + 1)
                ==> type_expr_denotes(#[trigger] fs@[k].1, #[trigger] vfs@[j])),
        TypeExprShape::Pointer(e) => v matches VoType::Pointer(ve) && type_expr_denotes(*e, *ve),
        TypeExprShape::Interface => v == VoType::Any,
    }
}


/// The type a name stands for.
fn ident_to_vo_type(n: &String) -> (r: VoType)
    ensures
        match predeclared_type(n@) {
            Some(k) => r == k,
            None => r matches VoType::Named(s) && s@ == n@,
        },
{
    if name_is(n, "int") {
        VoType::Int
    } else if name_is(n, "int8") {
        VoType::Int8
    } else if name_is(n, "int16") {
        VoType::Int16
    } else if name_is(n, "int32") || name_is(n, "rune") {
        VoType::Int32
    } else if name_is(n, "int64") {
        VoType::Int64
    } else if name_is(n, "uint") {
        VoType::Uint
    } else if name_is(n, "uint8") || name_is(n, "byte") {
        VoType::Uint8
    } else if name_is(n, "uint16") {
        VoType::Uint16
    } else if name_is(n, "uint32") {
        VoType::Uint32
    } else if name_is(n, "uint64") {
        VoType::Uint64
    } else if name_is(n, "float32") {
        VoType::Float32
    } else if name_is(n, "float64") {
        VoType::Float64
    } else if name_is(n, "bool") {
        VoType::Bool
    } else if name_is(n, "string") {
        VoType::String
    } else if name_is(n, "any") || name_is(n, "error") {
        VoType::Any
    } else {
        VoType::Named(n.clone())
    }
}

/// The types of parameter or field groups, each repeated once per name.
fn groups_to_vo_types(t: &TypeExprShape, gs: &Vec<(usize, TypeExprShape)>) -> (r: Vec<VoType>)
    requires
        (t matches TypeExprShape::Func(ps, _) && ps@ == gs@) || (t matches TypeExprShape::Struct(fs) && fs@ == gs@),
    ensures
        r@.len() == group_start(gs@, gs@.len() as int),
        forall|k: int, j: int| 0 <= k < gs@.len() && group_start(gs@, k) <= j < group_start(gs@, k + 1)
            ==> type_expr_denotes(#[trigger] gs@[k].1, #[trigger] r@[j]),
    decreases *t, 0nat,
{
    let mut out: Vec<VoType> = Vec::new();
    let mut k: usize = 0;
    while k < gs.len()
        invariant
            (t matches TypeExprShape::Func(ps, _) && ps@ == gs@) || (t matches TypeExprShape::Struct(fs) && fs@ == gs@),
            k <= gs@.len(),
            out@.len() == group_start(gs@, k as int),
            forall|kk: int, j: int| 0 <= kk < k && group_start(gs@, kk) <= j < group_start(gs@, kk + 1)
                ==> type_expr_denotes(#[trigger] gs@[kk].1, #[trigger] out@[j]),
        decreases gs@.len() - k,
    {
        let n: usize = if gs[k].0 == 0 { 1 } else { gs[k].0 };
        let ghost base = out@.len();
        let mut j: usize = 0;
        while j < n
            invariant
                (t matches TypeExprShape::Func(ps, _) && ps@ == gs@) || (t matches TypeExprShape::Struct(fs) && fs@ == gs@),
                k < gs@.len(),
                n == group_count(gs@[k as int].0),
                j <= n,
                base == group_start(gs@, k as int),
                out@.len() == base + j,
                forall|kk: int, jj: int| 0 <= kk < k && group_start(gs@, kk) <= jj < group_start(gs@, kk + 1)
                    ==> type_expr_denotes(#[trigger] gs@[kk].1, #[trigger] out@[jj]),
                forall|jj: int| base <= jj < base + j ==> type_expr_denotes(gs@[k as int].1, #[trigger] out@[jj]),
            decreases n - j,
        {
            proof {
                assert(decreases_to!(*t => gs@[k as int].1));
            }
            let v = type_expr_to_vo_type(&gs[k].1);
            let ghost before = out@;
            out.push(v);
            proof {
                assert forall|kk: int, jj: int| 0 <= kk < k && group_start(gs@, kk) <= jj < group_start(gs@, kk + 1)
                    implies type_expr_denotes(#[trigger] gs@[kk].1, #[trigger] out@[jj]) by {
                    lemma_group_start_mono(gs@, kk + 1, k as int);
                    lemma_group_start_mono(gs@, 0, kk);
                    assert(out@[jj] == before[jj]);
                }
            }
            j = j + 1;
        }
        proof {
            assert forall|kk: int, jj: int| 0 <= kk < k + 1 && group_start(gs@, kk) <= jj < group_start(gs@, kk + 1)
                implies type_expr_denotes(#[trigger] gs@[kk].1, #[trigger] out@[jj]) by {
                if kk < k {
                } else {
                    assert(kk == k);
                }
            }
        }
        k = k + 1;
    }
    out
}

/// The Vo type of a type expression.
pub fn type_expr_to_vo_type(t: &TypeExprShape) -> (r: VoType)
    ensures
        type_expr_denotes(*t, r),
    decreases *t, 1nat,
{
    match t {
        TypeExprShape::Ident(n) => ident_to_vo_type(n),
        TypeExprShape::Selector(p, n) => {
            let mut s = String::new();
            push_str(&mut s, p.as_str());
            push_char(&mut s, '.');
            push_str(&mut s, n.as_str());
            proof {
                assert(s@ =~= p@ + seq!['.'] + n@);
            }
            VoType::Named(s)
        },
        TypeExprShape::Array(lit, e) => {
            let len: usize = match lit {
                Some(raw) => match vo_const::parse_usize(raw.as_str()) {
                    Some(n) => n,
                    None => 0,
                },
                None => 0,
            };
            VoType::Array(len, Box::new(type_expr_to_vo_type(e)))
        },
        TypeExprShape::Slice(e) => VoType::Slice(Box::new(type_expr_to_vo_type(e))),
        TypeExprShape::MapOf(k, e) => {
            let vk = type_expr_to_vo_type(k);
            let ve = type_expr_to_vo_type(e);
            VoType::MapOf(Box::new(vk), Box::new(ve))
        },
        TypeExprShape::Chan(d, e) => VoType::Chan(*d, Box::new(type_expr_to_vo_type(e))),
        TypeExprShape::Func(ps, rs) => {
            let vps = groups_to_vo_types(t, ps);
            let mut vrs: Vec<VoType> = Vec::new();
            let mut i: usize = 0;
            while i < rs.len()
                invariant
                    t matches TypeExprShape::Func(ps2, rs2) && rs2@ == rs@,
                    i <= rs@.len(),
                    vrs@.len() == i,
                    forall|ii: int| 0 <= ii < i ==> type_expr_denotes(#[trigger] rs@[ii], vrs@[ii]),
                decreases rs@.len() - i,
            {
                proof {
                    assert(decreases_to!(*t => rs@[i as int]));
                }
                let v = type_expr_to_vo_type(&rs[i]);
                vrs.push(v);
                i = i + 1;
            }
            VoType::Func(vps, vrs)
        },
        TypeExprShape::Struct(fs) => VoType::Struct(groups_to_vo_types(t, fs)),
        TypeExprShape::Pointer(e) => VoType::Pointer(Box::new(type_expr_to_vo_type(e))),
        TypeExprShape::Interface => VoType::Any,
    }
}

} // verus!
