//! Type metadata and the type table loaded into the interpreter: the builtin types
//! sit at the index of their value kind, registered types follow, and each type
//! can be found by name.

use vstd::prelude::*;
use vstd::string::StringExecFns;
use crate::bytecode::FieldLayout;
use crate::value::{self, SlotType, ValueKind};

verus! {

broadcast use vstd::string::group_string_axioms;

/// Index of a type in the type table.
pub type TypeId = u32;

/// Type ids by type name, held in a `hashbrown` map.
#[verifier::external_body]
pub struct NameIndex {
    map: hashbrown::HashMap<String, TypeId>,
}

/// The names and ids held by a name index.
pub uninterp spec fn name_index_contents(index: NameIndex) -> Map<Seq<char>, TypeId>;

/// No names.
pub open spec fn no_names() -> Map<Seq<char>, TypeId> {
    Map::empty()
}

/// `hashbrown::HashMap::new`: an empty map.
#[verifier::external_body]
fn name_index_new() -> (r: NameIndex)
    ensures
        name_index_contents(r) == no_names(),
{
    NameIndex { map: hashbrown::HashMap::new() }
}

/// `hashbrown::HashMap::insert`: `name` now maps to `id`, replacing an earlier id.
#[verifier::external_body]
fn name_index_insert(index: &mut NameIndex, name: String, id: TypeId)
    ensures
        name_index_contents(*final(index)) == name_index_contents(*old(index)).insert(name@, id),
{
    index.map.insert(name, id);
}

/// `hashbrown::HashMap::get`: the id of `name`, if any.
#[verifier::external_body]
fn name_index_get(index: &NameIndex, name: &str) -> (r: Option<TypeId>)
    ensures
        r == name_index_contents(*index).get(name@),
{
    index.map.get(name).copied()
}

/// Metadata of a type.
pub struct TypeMeta {
    pub value_kind: ValueKind,
    /// Runtime type id (structs and interfaces).
    pub type_id: u32,
    /// Size in 8-byte slots.
    pub size_slots: usize,
    /// Size in bytes.
    pub size_bytes: usize,
    /// How the collector treats each slot.
    pub slot_types: Vec<SlotType>,
    pub name: String,
    /// Field layouts of a struct.
    pub field_layouts: Vec<FieldLayout>,
    /// Element type and size of an array, slice or channel.
    pub elem_type: Option<TypeId>,
    pub elem_size: Option<usize>,
    /// Key and value types of a map.
    pub key_type: Option<TypeId>,
    pub value_type: Option<TypeId>,
}

/// `meta` describes a type of the given kind, id, name, slots and slot types, with
/// no fields, element, key or value type.
pub open spec fn describes(
    meta: TypeMeta,
    kind: ValueKind,
    type_id: u32,
    name: Seq<char>,
    size_slots: int,
    slot_types: Seq<SlotType>,
) -> bool {
    &&& meta.value_kind == kind
    &&& meta.type_id == type_id
    &&& meta.name@ == name
    &&& meta.size_slots == size_slots
    &&& meta.size_bytes == size_slots * 8
    &&& meta.slot_types@ == slot_types
    &&& meta.field_layouts@.len() == 0
    &&& meta.elem_type is None
    &&& meta.elem_size is None
    &&& meta.key_type is None
    &&& meta.value_type is None
}

impl TypeMeta {
    /// Whether this is a struct type.
    pub fn is_struct(&self) -> (r: bool)
        ensures
            r == (self.value_kind == ValueKind::Struct),
    {
        self.value_kind == ValueKind::Struct
    }

    /// Whether this is an interface type.
    pub fn is_interface(&self) -> (r: bool)
        ensures
            r == (self.value_kind == ValueKind::Interface),
    {
        self.value_kind == ValueKind::Interface
    }

    /// A builtin type of `size_slots` slots.
    pub fn builtin(value_kind: ValueKind, name: &str, size_slots: usize, slot_types: Vec<SlotType>) -> (r: Self)
        requires
            size_slots * 8 <= usize::MAX,
        ensures
            describes(r, value_kind, 0, name@, size_slots as int, slot_types@),
    {
        TypeMeta {
            value_kind,
            type_id: 0,
            size_slots,
            size_bytes: size_slots * 8,
            slot_types,
            name: String::from_str(name),
            field_layouts: Vec::new(),
            elem_type: None,
            elem_size: None,
            key_type: None,
            value_type: None,
        }
    }

    /// The type of `nil`: no slots.
    pub fn nil() -> (r: Self)
        ensures
            describes(r, ValueKind::Void, 0, "nil"@, 0, Seq::empty()),
    {
        Self::builtin(ValueKind::Void, "nil", 0, Vec::new())
    }

    /// A primitive type: one plain slot.
    pub fn primitive(value_kind: ValueKind, name: &str) -> (r: Self)
        ensures
            describes(r, value_kind, 0, name@, 1, seq![SlotType::Value]),
    {
        let mut st = Vec::new();
        st.push(SlotType::Value);
        Self::builtin(value_kind, name, 1, st)
    }

    /// A struct type with runtime id `type_id`.
    pub fn struct_(type_id: u32, name: &str, size_slots: usize, slot_types: Vec<SlotType>) -> (r: Self)
        requires
            size_slots * 8 <= usize::MAX,
        ensures
            describes(r, ValueKind::Struct, type_id, name@, size_slots as int, slot_types@),
    {
        TypeMeta {
            value_kind: ValueKind::Struct,
            type_id,
            size_slots,
            size_bytes: size_slots * 8,
            slot_types,
            name: String::from_str(name),
            field_layouts: Vec::new(),
            elem_type: None,
            elem_size: None,
            key_type: None,
            value_type: None,
        }
    }

    /// A heap object type of the given kind.
    pub fn object(value_kind: ValueKind, name: &str, size_slots: usize, slot_types: Vec<SlotType>) -> (r: Self)
        requires
            size_slots * 8 <= usize::MAX,
        ensures
            describes(r, value_kind, 0, name@, size_slots as int, slot_types@),
    {
        Self::builtin(value_kind, name, size_slots, slot_types)
    }

    /// Whether the kind is a primitive one: up to and including function pointers.
    pub fn is_primitive(&self) -> (r: bool)
        ensures
            r == (value::kind_byte(self.value_kind) <= value::kind_byte(ValueKind::FuncPtr)),
    {
        self.value_kind.to_u8() <= ValueKind::FuncPtr.to_u8()
    }

    /// Layout of field `idx`, if the type has that many fields.
    pub fn get_field_layout(&self, idx: usize) -> (r: Option<&FieldLayout>)
        ensures
            idx < self.field_layouts@.len() ==> r == Some(&self.field_layouts@[idx as int]),
            idx >= self.field_layouts@.len() ==> r is None,
    {
        if idx < self.field_layouts.len() {
            Some(&self.field_layouts[idx])
        } else {
            None
        }
    }
}

/// The types known to the interpreter, by id and by name.
pub struct TypeTable {
    types: Vec<TypeMeta>,
    by_name: NameIndex,
}

/// Name of the builtin type at index `i`.
pub open spec fn builtin_name(i: int) -> Seq<char> {
    if i == 0 {
        "nil"@
    } else if i == 1 {
        "bool"@
    } else if i == 2 {
        "int"@
    } else if i == 3 {
        "int8"@
    } else if i == 4 {
        "int16"@
    } else if i == 5 {
        "int32"@
    } else if i == 6 {
        "int64"@
    } else if i == 7 {
        "uint"@
    } else if i == 8 {
        "uint8"@
    } else if i == 9 {
        "uint16"@
    } else if i == 10 {
        "uint32"@
    } else if i == 11 {
        "uint64"@
    } else if i == 12 {
        "float32"@
    } else if i == 13 {
        "float64"@
    } else if i == 14 {
        "funcptr"@
    } else if i == 15 {
        "string"@
    } else if i == 16 {
        "array"@
    } else if i == 17 {
        "slice"@
    } else if i == 18 {
        "map"@
    } else if i == 19 {
        "channel"@
    } else if i == 20 {
        "closure"@
    } else if i == 21 {
        "struct"@
    } else if i == 22 {
        "pointer"@
    } else {
        "interface"@
    }
}

/// Slot types of the builtin type at index `i`: none for `nil` and `struct`, a plain
/// slot for the primitive types, two interface slots for `interface`, one reference
/// for the others.
pub open spec fn builtin_slot_types(i: int) -> Seq<SlotType> {
    if i == 0 || i == 21 {
        Seq::empty()
    } else if i <= 14 {
        seq![SlotType::Value]
    } else if i == 23 {
        seq![SlotType::Interface0, SlotType::Interface1]
    } else {
        seq![SlotType::GcRef]
    }
}

/// Number of builtin types.
pub const BUILTIN_COUNT: usize = 24;

/// The builtin names differ from each other.
proof fn lemma_builtin_names_distinct()
    ensures
        forall|i: int, j: int| 0 <= i < j < BUILTIN_COUNT ==> builtin_name(i) != builtin_name(j),
{
    reveal_strlit("nil");
    reveal_strlit("bool");
    reveal_strlit("int");
    reveal_strlit("int8");
    reveal_strlit("int16");
    reveal_strlit("int32");
    reveal_strlit("int64");
    reveal_strlit("uint");
    reveal_strlit("uint8");
    reveal_strlit("uint16");
    reveal_strlit("uint32");
    reveal_strlit("uint64");
    reveal_strlit("float32");
    reveal_strlit("float64");
    reveal_strlit("funcptr");
    reveal_strlit("string");
    reveal_strlit("array");
    reveal_strlit("slice");
    reveal_strlit("map");
    reveal_strlit("channel");
    reveal_strlit("closure");
    reveal_strlit("struct");
    reveal_strlit("pointer");
    reveal_strlit("interface");
    assert forall|i: int, j: int| 0 <= i < j < BUILTIN_COUNT implies builtin_name(i) != builtin_name(j) by {
        let a = builtin_name(i);
        let b = builtin_name(j);
        if a.len() == b.len() && a.len() > 0 {
            if a[0] == b[0] {
                if a.len() > 1 && a[1] == b[1] {
                    if a.len() > 2 && a[2] == b[2] {
                        if a.len() > 3 && a[3] == b[3] {
                            if a.len() > 4 && a[4] == b[4] {
                                if a.len() > 5 && a[5] == b[5] {
                                    assert(a[a.len() - 1] != b[b.len() - 1]);
                                }
                            }
                        }
                    }
                }
            }
        }
    }
}

/// Kinds below the number of builtins decode to the kind of that number.
proof fn lemma_kind_of_small_byte(b: u8)
    requires
        (b as int) < BUILTIN_COUNT,
    ensures
        value::kind_byte(value::kind_of_byte(b)) == b,
{
}

/// The metadata of the builtin type at index `i`.
fn builtin_meta(i: usize) -> (r: TypeMeta)
    requires
        i < BUILTIN_COUNT,
    ensures
        describes(
            r,
            value::kind_of_byte(i as u8),
            0,
            builtin_name(i as int),
            builtin_slot_types(i as int).len() as int,
            builtin_slot_types(i as int),
        ),
        value::kind_byte(r.value_kind) == i,
{
    let mut gc_ref = Vec::new();
    gc_ref.push(SlotType::GcRef);
    match i {
        0 => TypeMeta::nil(),
        1 => TypeMeta::primitive(ValueKind::Bool, "bool"),
        2 => TypeMeta::primitive(ValueKind::Int, "int"),
        3 => TypeMeta::primitive(ValueKind::Int8, "int8"),
        4 => TypeMeta::primitive(ValueKind::Int16, "int16"),
        5 => TypeMeta::primitive(ValueKind::Int32, "int32"),
        6 => TypeMeta::primitive(ValueKind::Int64, "int64"),
        7 => TypeMeta::primitive(ValueKind::Uint, "uint"),
        8 => TypeMeta::primitive(ValueKind::Uint8, "uint8"),
        9 => TypeMeta::primitive(ValueKind::Uint16, "uint16"),
        10 => TypeMeta::primitive(ValueKind::Uint32, "uint32"),
        11 => TypeMeta::primitive(ValueKind::Uint64, "uint64"),
        12 => TypeMeta::primitive(ValueKind::Float32, "float32"),
        13 => TypeMeta::primitive(ValueKind::Float64, "float64"),
        14 => TypeMeta::primitive(ValueKind::FuncPtr, "funcptr"),
        15 => TypeMeta::object(ValueKind::String, "string", 1, gc_ref),
        16 => TypeMeta::object(ValueKind::Array, "array", 1, gc_ref),
        17 => TypeMeta::object(ValueKind::Slice, "slice", 1, gc_ref),
        18 => TypeMeta::object(ValueKind::MapKind, "map", 1, gc_ref),
        19 => TypeMeta::object(ValueKind::Channel, "channel", 1, gc_ref),
        20 => TypeMeta::object(ValueKind::Closure, "closure", 1, gc_ref),
        21 => TypeMeta::object(ValueKind::Struct, "struct", 0, Vec::new()),
        22 => TypeMeta::object(ValueKind::Pointer, "pointer", 1, gc_ref),
        _ => {
            let mut iface = Vec::new();
            iface.push(SlotType::Interface0);
            iface.push(SlotType::Interface1);
            assert(iface@ == builtin_slot_types(23));
            TypeMeta::object(ValueKind::Interface, "interface", 2, iface)
        },
    }
}

impl TypeTable {
    /// The types, by id.
    pub closed spec fn types(&self) -> Seq<TypeMeta> {
        self.types@
    }

    /// Type ids by name.
    pub closed spec fn names(&self) -> Map<Seq<char>, TypeId> {
        name_index_contents(self.by_name)
    }

    /// The builtin types, each at the index of its value kind and known by its name.
    pub fn new() -> (r: Self)
        ensures
            r.types().len() == BUILTIN_COUNT,
            forall|i: int|
                0 <= i < BUILTIN_COUNT ==> describes(
                    #[trigger] r.types()[i],
                    value::kind_of_byte(i as u8),
                    0,
                    builtin_name(i),
                    builtin_slot_types(i).len() as int,
                    builtin_slot_types(i),
                ),
            forall|i: int| 0 <= i < BUILTIN_COUNT ==> #[trigger] r.names().get(builtin_name(i)) == Some(i as TypeId),
            forall|k: Seq<char>| #[trigger] r.names().contains_key(k) ==> exists|i: int|
                0 <= i < BUILTIN_COUNT && builtin_name(i) == k,
    {
        let mut table = TypeTable { types: Vec::new(), by_name: name_index_new() };
        table.init_builtins();
        table
    }

    fn set_builtin(&mut self, meta: TypeMeta)
        requires
            old(self).types().len() == BUILTIN_COUNT,
            (value::kind_byte(meta.value_kind) as int) < BUILTIN_COUNT,
        ensures
            final(self).types() == old(self).types().update(value::kind_byte(meta.value_kind) as int, meta),
            final(self).names() == old(self).names().insert(meta.name@, value::kind_byte(meta.value_kind) as TypeId),
    {
        let idx = meta.value_kind.to_u8() as usize;
        let name = meta.name.clone();
        name_index_insert(&mut self.by_name, name, idx as TypeId);
        self.types.set(idx, meta);
    }

    fn init_builtins(&mut self)
        requires
            old(self).types().len() == 0,
            old(self).names() == no_names(),
        ensures
            final(self).types().len() == BUILTIN_COUNT,
            forall|i: int|
                0 <= i < BUILTIN_COUNT ==> describes(
                    #[trigger] final(self).types()[i],
                    value::kind_of_byte(i as u8),
                    0,
                    builtin_name(i),
                    builtin_slot_types(i).len() as int,
                    builtin_slot_types(i),
                ),
            forall|i: int| 0 <= i < BUILTIN_COUNT ==> #[trigger] final(self).names().get(builtin_name(i)) == Some(
                i as TypeId,
            ),
            forall|k: Seq<char>| #[trigger] final(self).names().contains_key(k) ==> exists|i: int|
                0 <= i < BUILTIN_COUNT && builtin_name(i) == k,
    {
        let mut i: usize = 0;
        while i < BUILTIN_COUNT
            invariant
                self.types().len() == i,
                i <= BUILTIN_COUNT,
                self.names() == old(self).names(),
            decreases BUILTIN_COUNT - i,
        {
            self.types.push(TypeMeta::nil());
            i = i + 1;
        }
        proof {
            lemma_builtin_names_distinct();
        }
        let mut k: usize = 0;
        while k < BUILTIN_COUNT
            invariant
                self.types().len() == BUILTIN_COUNT,
                k <= BUILTIN_COUNT,
                forall|i: int, j: int| 0 <= i < j < BUILTIN_COUNT ==> builtin_name(i) != builtin_name(j),
                forall|j: int|
                    0 <= j < k ==> describes(
                        #[trigger] self.types()[j],
                        value::kind_of_byte(j as u8),
                        0,
                        builtin_name(j),
                        builtin_slot_types(j).len() as int,
                        builtin_slot_types(j),
                    ),
                forall|j: int| 0 <= j < k ==> #[trigger] self.names().get(builtin_name(j)) == Some(j as TypeId),
                forall|key: Seq<char>| #[trigger] self.names().contains_key(key) ==> exists|j: int|
                    0 <= j < k && builtin_name(j) == key,
            decreases BUILTIN_COUNT - k,
        {
            let meta = builtin_meta(k);
            proof {
                value::lemma_kind_byte_roundtrip(meta.value_kind);
                lemma_kind_of_small_byte(k as u8);
            }
            let ghost names0 = self.names();
            assert(forall|j: int| 0 <= j < k ==> #[trigger] names0.get(builtin_name(j)) == Some(j as TypeId));
            self.set_builtin(meta);
            proof {
                assert forall|key: Seq<char>| #[trigger] self.names().contains_key(key) implies exists|j: int|
                    0 <= j < k + 1 && builtin_name(j) == key by {
                    if key != builtin_name(k as int) {
                        assert(names0.contains_key(key));
                    }
                }
                assert forall|j: int| 0 <= j < k + 1 implies #[trigger] self.names().get(builtin_name(j)) == Some(
                    j as TypeId,
                ) by {
                    if j < k {
                        assert(builtin_name(j) != builtin_name(k as int));
                        assert(names0.get(builtin_name(j)) == Some(j as TypeId));
                    } else {
                        assert(j == k);
                    }
                }
            }
            k = k + 1;
        }
    }

    /// Put `meta` at id `id` (growing the table with `nil` types) and record its name.
    fn set(&mut self, id: TypeId, meta: TypeMeta)
        ensures
            final(self).types().len() == if (id as int) < old(self).types().len() {
                old(self).types().len() as int
            } else {
                id as int + 1
            },
            final(self).types()[id as int] == meta,
            forall|j: int|
                0 <= j < old(self).types().len() && j != id ==> #[trigger] final(self).types()[j] == old(
                    self,
                ).types()[j],
            final(self).names() == old(self).names().insert(meta.name@, id),
    {
        let idx = id as usize;
        while self.types.len() <= idx
            invariant
                idx as int == id as int,
                old(self).types().len() <= self.types().len() <= (if (id as int) < old(self).types().len() {
                    old(self).types().len() as int
                } else {
                    id as int + 1
                }),
                forall|j: int| 0 <= j < old(self).types().len() ==> #[trigger] self.types()[j] == old(self).types()[j],
                self.names() == old(self).names(),
            decreases idx + 1 - self.types.len(),
        {
            self.types.push(TypeMeta::nil());
        }
        let name = meta.name.clone();
        name_index_insert(&mut self.by_name, name, id);
        self.types.set(idx, meta);
    }

    /// Register a struct type at the end of the table and record its name.
    pub fn register_struct(&mut self, type_id: u32, name: &str, size_slots: usize, slot_types: Vec<SlotType>) -> (r: TypeId)
        requires
            size_slots * 8 <= usize::MAX,
        ensures
            r == old(self).types().len() as TypeId,
            final(self).types().len() == old(self).types().len() + 1,
            final(self).types().subrange(0, old(self).types().len() as int) == old(self).types(),
            describes(final(self).types().last(), ValueKind::Struct, type_id, name@, size_slots as int, slot_types@),
            final(self).names() == old(self).names().insert(name@, r),
    {
        let meta = TypeMeta::struct_(type_id, name, size_slots, slot_types);
        let id = self.types.len() as TypeId;
        name_index_insert(&mut self.by_name, String::from_str(name), id);
        self.types.push(meta);
        assert(self.types().subrange(0, old(self).types().len() as int) =~= old(self).types());
        id
    }

    /// The type with id `id`, if any.
    pub fn get(&self, id: TypeId) -> (r: Option<&TypeMeta>)
        ensures
            (id as int) < self.types().len() ==> r == Some(&self.types()[id as int]),
            (id as int) >= self.types().len() ==> r is None,
    {
        let idx = id as usize;
        if idx < self.types.len() {
            Some(&self.types[idx])
        } else {
            None
        }
    }

    /// The type with id `id`, which must exist.
    pub fn get_unchecked(&self, id: TypeId) -> (r: &TypeMeta)
        requires
            (id as int) < self.types().len(),
        ensures
            *r == self.types()[id as int],
    {
        &self.types[id as usize]
    }

    /// The id of the type named `name`, if any.
    pub fn get_by_name(&self, name: &str) -> (r: Option<TypeId>)
        ensures
            r == self.names().get(name@),
    {
        name_index_get(&self.by_name, name)
    }

    /// Number of types.
    pub fn len(&self) -> (r: usize)
        ensures
            r == self.types().len(),
    {
        self.types.len()
    }

    /// Whether the table holds no type.
    pub fn is_empty(&self) -> (r: bool)
        ensures
            r == (self.types().len() == 0),
    {
        self.types.len() == 0
    }
}

/// A type registered under a name is found by that name, and registering does not
/// move the types already there.
pub proof fn lemma_registered_found(t0: &TypeTable, t1: &TypeTable, name: Seq<char>, id: TypeId)
    requires
        t1.names() == t0.names().insert(name, id),
        t1.types().len() == t0.types().len() + 1,
        t1.types().subrange(0, t0.types().len() as int) == t0.types(),
    ensures
        t1.names().get(name) == Some(id),
        forall|n: Seq<char>| n != name ==> #[trigger] t1.names().get(n) == t0.names().get(n),
        forall|i: int| 0 <= i < t0.types().len() ==> #[trigger] t1.types()[i] == t0.types()[i],
{
    assert forall|i: int| 0 <= i < t0.types().len() implies #[trigger] t1.types()[i] == t0.types()[i] by {
        assert(t1.types().subrange(0, t0.types().len() as int)[i] == t1.types()[i]);
    }
}

} // verus!
