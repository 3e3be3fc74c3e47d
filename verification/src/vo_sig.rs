//! Line-based parser of Vo extern function signatures, used to validate native
//! function bindings against their `.vo` declarations.
//!
//! It only extracts function signatures; it does not parse the full Vo syntax.

use vstd::prelude::*;
use crate::vo_types;
use crate::text::{self, Outcome, chars_of, range_eq, split_char_ranges, split_ws_ranges, substring, trim_range};

verus! {

broadcast use vstd::string::group_string_axioms;

/// A parsed Vo function signature.
#[derive(Debug)]
pub struct VoFuncSig {
    pub name: String,
    pub params: Vec<VoParam>,
    pub results: Vec<VoType>,
    pub is_extern: bool,
}

/// A Vo function parameter.
#[derive(Debug)]
pub struct VoParam {
    pub name: String,
    pub ty: VoType,
}

/// A Vo type.
#[derive(Debug)]
pub enum VoType {
    Int,
    Int8,
    Int16,
    Int32,
    Int64,
    Uint,
    Uint8,
    Uint16,
    Uint32,
    Uint64,
    Float32,
    Float64,
    Bool,
    String,
    Any,
    Named(String),
    Pointer(Box<VoType>),
    Slice(Box<VoType>),
    Array(usize, Box<VoType>),
}

// ==================== Models ====================

/// Mathematical model of a Vo type.
pub enum TypeModel {
    Int,
    Int8,
    Int16,
    Int32,
    Int64,
    Uint,
    Uint8,
    Uint16,
    Uint32,
    Uint64,
    Float32,
    Float64,
    Bool,
    Str,
    Any,
    Named(Seq<char>),
    Pointer(Box<TypeModel>),
    Slice(Box<TypeModel>),
    Array(usize, Box<TypeModel>),
}

/// Model of a parameter.
pub struct ParamModel {
    pub name: Seq<char>,
    pub ty: TypeModel,
}

/// Model of a signature.
pub struct SigModel {
    pub name: Seq<char>,
    pub params: Seq<ParamModel>,
    pub results: Seq<TypeModel>,
    pub is_extern: bool,
}

impl VoType {
    /// The model of this type.
    pub open spec fn model(&self) -> TypeModel
        decreases self,
    {
        match self {
            VoType::Int => TypeModel::Int,
            VoType::Int8 => TypeModel::Int8,
            VoType::Int16 => TypeModel::Int16,
            VoType::Int32 => TypeModel::Int32,
            VoType::Int64 => TypeModel::Int64,
            VoType::Uint => TypeModel::Uint,
            VoType::Uint8 => TypeModel::Uint8,
            VoType::Uint16 => TypeModel::Uint16,
            VoType::Uint32 => TypeModel::Uint32,
            VoType::Uint64 => TypeModel::Uint64,
            VoType::Float32 => TypeModel::Float32,
            VoType::Float64 => TypeModel::Float64,
            VoType::Bool => TypeModel::Bool,
            VoType::String => TypeModel::Str,
            VoType::Any => TypeModel::Any,
            VoType::Named(n) => TypeModel::Named(n@),
            VoType::Pointer(t) => TypeModel::Pointer(Box::new(t.model())),
            VoType::Slice(t) => TypeModel::Slice(Box::new(t.model())),
            VoType::Array(n, t) => TypeModel::Array(*n, Box::new(t.model())),
        }
    }
}

impl VoParam {
    /// The model of this parameter.
    pub open spec fn model(&self) -> ParamModel {
        ParamModel { name: self.name@, ty: self.ty.model() }
    }
}

impl VoFuncSig {
    /// The model of this signature.
    pub open spec fn model(&self) -> SigModel {
        SigModel {
            name: self.name@,
            params: self.params@.map_values(|p: VoParam| p.model()),
            results: self.results@.map_values(|t: VoType| t.model()),
            is_extern: self.is_extern,
        }
    }
}

// ==================== Specification of the parser ====================

/// The type named by a keyword, if `t` is one.
pub open spec fn keyword_type(t: Seq<char>) -> Option<TypeModel> {
    if t == "int"@ {
        Some(TypeModel::Int)
    } else if t == "int8"@ {
        Some(TypeModel::Int8)
    } else if t == "int16"@ {
        Some(TypeModel::Int16)
    } else if t == "int32"@ {
        Some(TypeModel::Int32)
    } else if t == "int64"@ {
        Some(TypeModel::Int64)
    } else if t == "uint"@ {
        Some(TypeModel::Uint)
    } else if t == "uint8"@ || t == "byte"@ {
        Some(TypeModel::Uint8)
    } else if t == "uint16"@ {
        Some(TypeModel::Uint16)
    } else if t == "uint32"@ {
        Some(TypeModel::Uint32)
    } else if t == "uint64"@ {
        Some(TypeModel::Uint64)
    } else if t == "float32"@ {
        Some(TypeModel::Float32)
    } else if t == "float64"@ {
        Some(TypeModel::Float64)
    } else if t == "bool"@ {
        Some(TypeModel::Bool)
    } else if t == "string"@ {
        Some(TypeModel::Str)
    } else if t == "any"@ {
        Some(TypeModel::Any)
    } else {
        None
    }
}

/// The type a type string denotes: a keyword, `*T`, `[]T`, or otherwise a named type.
pub open spec fn parse_type_spec(s: Seq<char>) -> TypeModel
    decreases s.len(),
{
    let t = text::trim(s);
    if t.len() > s.len() {
        TypeModel::Any
    } else {
        match keyword_type(t) {
            Some(k) => k,
            None => {
                if t.len() >= 1 && t[0] == '*' {
                    TypeModel::Pointer(Box::new(parse_type_spec(t.subrange(1, t.len() as int))))
                } else if t.len() >= 2 && t[0] == '[' && t[1] == ']' {
                    TypeModel::Slice(Box::new(parse_type_spec(t.subrange(2, t.len() as int))))
                } else {
                    TypeModel::Named(t)
                }
            },
        }
    }
}

/// `s` without trailing commas.
pub open spec fn trim_commas(s: Seq<char>) -> Seq<char>
    decreases s.len(),
{
    if s.len() > 0 && s.last() == ',' { trim_commas(s.drop_last()) } else { s }
}

/// The parameters declared by one comma-separated part: `name type`, `a b type`
/// (several names sharing a type), or a bare `type`.
pub open spec fn params_of_part(part: Seq<char>) -> Seq<ParamModel> {
    let toks = text::split_ws(text::trim(part));
    if toks.len() >= 2 {
        let ty = parse_type_spec(toks.last());
        toks.drop_last().map_values(|n: Seq<char>| ParamModel { name: trim_commas(n), ty })
    } else if toks.len() == 1 {
        seq![ParamModel { name: Seq::empty(), ty: parse_type_spec(toks[0]) }]
    } else {
        Seq::empty()
    }
}

/// The parameters declared by a list of parts.
pub open spec fn params_of_parts(parts: Seq<Seq<char>>) -> Seq<ParamModel>
    decreases parts.len(),
{
    if parts.len() == 0 {
        Seq::empty()
    } else {
        params_of_part(parts[0]) + params_of_parts(parts.drop_first())
    }
}

/// The parameters of a parameter list (the text between the parentheses).
pub open spec fn params_spec(s: Seq<char>) -> Seq<ParamModel> {
    let t = text::trim(s);
    if t.len() == 0 { Seq::empty() } else { params_of_parts(text::split_char(t, ',')) }
}

/// The result types of a list of parts of a parenthesized result list: the last word
/// of each part (so `err error` gives `error`); parts without words give nothing.
pub open spec fn results_of_parts(parts: Seq<Seq<char>>) -> Seq<TypeModel>
    decreases parts.len(),
{
    if parts.len() == 0 {
        Seq::empty()
    } else {
        let ws = text::split_ws(text::trim(parts[0]));
        let here = if ws.len() == 0 { Seq::empty() } else { seq![parse_type_spec(ws.last())] };
        here + results_of_parts(parts.drop_first())
    }
}

/// The result types of the text after the parameter list.
pub open spec fn returns_spec(s: Seq<char>) -> Seq<TypeModel> {
    let t = text::trim(s);
    if t.len() == 0 {
        Seq::empty()
    } else if t.len() >= 2 && t[0] == '(' && t.last() == ')' {
        results_of_parts(text::split_char(t.subrange(1, t.len() - 1), ','))
    } else {
        seq![parse_type_spec(t)]
    }
}

/// What follows `func ` and the name: the text after the name, trimmed at the start.
pub open spec fn sig_rest(sig: Seq<char>, name: Seq<char>) -> Option<Seq<char>> {
    if !text::starts_with(sig, "func "@) {
        None
    } else {
        let r1 = text::trim_start(sig.subrange(5, sig.len() as int));
        if !text::starts_with(r1, name) {
            None
        } else {
            Some(text::trim_start(r1.subrange(name.len() as int, r1.len() as int)))
        }
    }
}

/// The signature `func name(params) results` parsed from `sig`. Parsing panics when the
/// first `)` comes before the first `(`.
pub open spec fn sig_spec(sig: Seq<char>, name: Seq<char>) -> Outcome<SigModel> {
    match sig_rest(sig, name) {
        None => Outcome::Absent,
        Some(rest) => match (text::find_char(rest, '('), text::find_char(rest, ')')) {
            (Some(ps), Some(pe)) => {
                if pe < ps + 1 {
                    Outcome::Aborts
                } else {
                    Outcome::Value(SigModel {
                        name,
                        params: params_spec(rest.subrange(ps + 1, pe)),
                        results: returns_spec(rest.subrange(pe + 1, rest.len() as int)),
                        is_extern: true,
                    })
                }
            },
            _ => Outcome::Absent,
        },
    }
}

/// Index of the first line at or after `k` that is not blank (or the number of lines).
pub open spec fn next_nonblank(ls: Seq<Seq<char>>, k: int) -> int
    decreases ls.len() - k,
{
    if k < 0 || k >= ls.len() {
        if k < 0 { 0 } else { k }
    } else if text::trim(ls[k]).len() == 0 {
        next_nonblank(ls, k + 1)
    } else {
        k
    }
}

/// Whether the declaration that starts on line `i` has a body, and the text of its
/// signature, scanning from line `j` with the signature text gathered so far.
/// A `{` on a line means a body; the scan ends at the first line holding `)`, where
/// a next non-blank line starting with `{` also means a body.
pub open spec fn scan_decl(ls: Seq<Seq<char>>, i: int, j: int, full: Seq<char>) -> (bool, Seq<char>)
    decreases ls.len() - j,
{
    if j < 0 || j >= ls.len() {
        (false, full)
    } else if text::contains_char(ls[j], '{') {
        (true, full)
    } else {
        let full2 = if j > i { full + text::trim(ls[j]) } else { full };
        if text::contains_char(ls[j], ')') {
            let k = next_nonblank(ls, j + 1);
            (k < ls.len() && text::starts_with(text::trim(ls[k]), seq!['{']), full2)
        } else {
            scan_decl(ls, i, j + 1, full2)
        }
    }
}

/// The name that a `func ` line declares: the text before the first `(`, trimmed.
pub open spec fn decl_name(trimmed: Seq<char>) -> Seq<char> {
    let rest = text::trim_start(trimmed.subrange(5, trimmed.len() as int));
    let name_end = match text::find_char(rest, '(') {
        Some(k) => k,
        None => rest.len() as int,
    };
    text::trim(rest.subrange(0, name_end))
}

/// The first extern (body-less) declaration of `name` among lines `i..`.
pub open spec fn extern_from(ls: Seq<Seq<char>>, name: Seq<char>, i: int) -> Outcome<SigModel>
    decreases ls.len() - i,
{
    if i < 0 || i >= ls.len() {
        Outcome::Absent
    } else {
        let trimmed = text::trim(ls[i]);
        if !text::starts_with(trimmed, "func "@) || decl_name(trimmed) != name {
            extern_from(ls, name, i + 1)
        } else {
            let (has_body, full) = scan_decl(ls, i, i, trimmed);
            if has_body {
                extern_from(ls, name, i + 1)
            } else {
                sig_spec(full, name)
            }
        }
    }
}

/// The extern declaration of `name` in a source text.
pub open spec fn parse_extern_spec(source: Seq<char>, name: Seq<char>) -> Outcome<SigModel> {
    extern_from(text::lines(source), name, 0)
}

/// An `Option` result matches an outcome that is not a panic.
pub open spec fn option_matches(r: Option<SigModel>, o: Outcome<SigModel>) -> bool {
    match o {
        Outcome::Value(m) => r == Some(m),
        Outcome::Absent => r is None,
        Outcome::Aborts => false,
    }
}

// ==================== Executable parser ====================

/// Whether `cs[lo..hi]` spells the string `kw`.
fn range_is(cs: &[char], lo: usize, hi: usize, kw: &str) -> (r: bool)
    requires
        lo <= hi <= cs@.len(),
    ensures
        r == (cs@.subrange(lo as int, hi as int) == kw@),
{
    let k = chars_of(kw);
    range_eq(cs, lo, hi, k.as_slice())
}

impl VoType {
    /// A deep copy of this type.
    pub fn duplicate(&self) -> (r: VoType)
        ensures
            r.model() == self.model(),
        decreases self,
    {
        match self {
            VoType::Int => VoType::Int,
            VoType::Int8 => VoType::Int8,
            VoType::Int16 => VoType::Int16,
            VoType::Int32 => VoType::Int32,
            VoType::Int64 => VoType::Int64,
            VoType::Uint => VoType::Uint,
            VoType::Uint8 => VoType::Uint8,
            VoType::Uint16 => VoType::Uint16,
            VoType::Uint32 => VoType::Uint32,
            VoType::Uint64 => VoType::Uint64,
            VoType::Float32 => VoType::Float32,
            VoType::Float64 => VoType::Float64,
            VoType::Bool => VoType::Bool,
            VoType::String => VoType::String,
            VoType::Any => VoType::Any,
            VoType::Named(n) => VoType::Named(n.clone()),
            VoType::Pointer(t) => VoType::Pointer(Box::new(t.duplicate())),
            VoType::Slice(t) => VoType::Slice(Box::new(t.duplicate())),
            VoType::Array(n, t) => VoType::Array(*n, Box::new(t.duplicate())),
        }
    }

    /// Parse a type string: a keyword (`int`, `byte`, `string`, ...), `*T`, `[]T`, or
    /// otherwise a named type. Always succeeds.
    pub fn parse(s: &str) -> (r: Option<VoType>)
        ensures
            r matches Some(t) && t.model() == parse_type_spec(s@),
    {
        let cs = chars_of(s);
        let t = parse_in(s, cs.as_slice(), 0, cs.len());
        assert(cs@.subrange(0, cs@.len() as int) == s@);
        Some(t)
    }

    /// The Rust type that a native binding uses for this Vo type.
    pub fn expected_rust_type(&self) -> (r: &'static str)
        ensures
            r@ == rust_type_name(self.model()),
    {
        match self {
            VoType::Int | VoType::Int64 => "i64",
            VoType::Int8 => "i8",
            VoType::Int16 => "i16",
            VoType::Int32 => "i32",
            VoType::Uint | VoType::Uint64 => "u64",
            VoType::Uint8 => "u8",
            VoType::Uint16 => "u16",
            VoType::Uint32 => "u32",
            VoType::Float32 => "f32",
            VoType::Float64 => "f64",
            VoType::Bool => "bool",
            VoType::String => "&str",
            VoType::Any => "any",
            VoType::Pointer(_) => "GcRef",
            VoType::Slice(_) => "GcRef",
            VoType::Array(_, _) => "GcRef",
            VoType::Named(_) => "GcRef",
        }
    }
}

/// The Rust type name for a type model.
pub open spec fn rust_type_name(t: TypeModel) -> Seq<char> {
    match t {
        TypeModel::Int | TypeModel::Int64 => "i64"@,
        TypeModel::Int8 => "i8"@,
        TypeModel::Int16 => "i16"@,
        TypeModel::Int32 => "i32"@,
        TypeModel::Uint | TypeModel::Uint64 => "u64"@,
        TypeModel::Uint8 => "u8"@,
        TypeModel::Uint16 => "u16"@,
        TypeModel::Uint32 => "u32"@,
        TypeModel::Float32 => "f32"@,
        TypeModel::Float64 => "f64"@,
        TypeModel::Bool => "bool"@,
        TypeModel::Str => "&str"@,
        TypeModel::Any => "any"@,
        _ => "GcRef"@,
    }
}

/// Parse the type written in `cs[lo..hi]`, where `cs` holds the characters of `s`.
fn parse_in(s: &str, cs: &[char], lo: usize, hi: usize) -> (r: VoType)
    requires
        cs@ == s@,
        lo <= hi <= cs@.len(),
    ensures
        r.model() == parse_type_spec(cs@.subrange(lo as int, hi as int)),
    decreases hi - lo,
{
    let ghost sub = cs@.subrange(lo as int, hi as int);
    let (a, b) = trim_range(cs, lo, hi);
    proof { text::lemma_trim_len(sub); }
    let ghost t = text::trim(sub);
    assert(t == cs@.subrange(a as int, b as int));
    if range_is(cs, a, b, "int") {
        VoType::Int
    } else if range_is(cs, a, b, "int8") {
        VoType::Int8
    } else if range_is(cs, a, b, "int16") {
        VoType::Int16
    } else if range_is(cs, a, b, "int32") {
        VoType::Int32
    } else if range_is(cs, a, b, "int64") {
        VoType::Int64
    } else if range_is(cs, a, b, "uint") {
        VoType::Uint
    } else if range_is(cs, a, b, "uint8") || range_is(cs, a, b, "byte") {
        VoType::Uint8
    } else if range_is(cs, a, b, "uint16") {
        VoType::Uint16
    } else if range_is(cs, a, b, "uint32") {
        VoType::Uint32
    } else if range_is(cs, a, b, "uint64") {
        VoType::Uint64
    } else if range_is(cs, a, b, "float32") {
        VoType::Float32
    } else if range_is(cs, a, b, "float64") {
        VoType::Float64
    } else if range_is(cs, a, b, "bool") {
        VoType::Bool
    } else if range_is(cs, a, b, "string") {
        VoType::String
    } else if range_is(cs, a, b, "any") {
        VoType::Any
    } else if b - a >= 1 && cs[a] == '*' {
        assert(t.subrange(1, t.len() as int) == cs@.subrange(a + 1, b as int));
        let inner = parse_in(s, cs, a + 1, b);
        VoType::Pointer(Box::new(inner))
    } else if b - a >= 2 && cs[a] == '[' && cs[a + 1] == ']' {
        assert(t.subrange(2, t.len() as int) == cs@.subrange(a + 2, b as int));
        let inner = parse_in(s, cs, a + 2, b);
        VoType::Slice(Box::new(inner))
    } else {
        VoType::Named(substring(s, a, b))
    }
}

/// `cs[lo..hi]` without trailing commas, as an end position.
fn trim_commas_end(cs: &[char], lo: usize, hi: usize) -> (r: usize)
    requires
        lo <= hi <= cs@.len(),
    ensures
        lo <= r <= hi,
        cs@.subrange(lo as int, r as int) == trim_commas(cs@.subrange(lo as int, hi as int)),
{
    let mut b = hi;
    while b > lo && cs[b - 1] == ','
        invariant
            lo <= b <= hi <= cs@.len(),
            trim_commas(cs@.subrange(lo as int, b as int)) == trim_commas(cs@.subrange(lo as int, hi as int)),
        decreases b - lo,
    {
        assert(cs@.subrange(lo as int, b as int).drop_last() == cs@.subrange(lo as int, b - 1));
        b = b - 1;
    }
    b
}

proof fn lemma_params_of_parts_push(parts: Seq<Seq<char>>, k: int)
    requires
        0 <= k < parts.len(),
    ensures
        params_of_parts(parts.subrange(0, k + 1)) == params_of_parts(parts.subrange(0, k)) + params_of_part(parts[k]),
    decreases k,
{
    let a = parts.subrange(0, k + 1);
    if k == 0 {
        assert(a.drop_first() =~= Seq::<Seq<char>>::empty());
        assert(params_of_parts(a.drop_first()) == Seq::<ParamModel>::empty());
        assert(params_of_parts(parts.subrange(0, 0)) == Seq::<ParamModel>::empty());
        assert(params_of_part(parts[0]) + Seq::<ParamModel>::empty() == params_of_part(parts[0]));
    } else {
        let t = parts.drop_first();
        lemma_params_of_parts_push(t, k - 1);
        assert(a.drop_first() == t.subrange(0, k));
        assert(parts.subrange(0, k).drop_first() == t.subrange(0, k - 1));
        assert(t[k - 1] == parts[k]);
        assert(params_of_parts(a) == params_of_part(parts[0]) + params_of_parts(t.subrange(0, k)));
        assert(params_of_parts(parts.subrange(0, k)) == params_of_part(parts[0]) + params_of_parts(t.subrange(0, k - 1)));
        assert((params_of_part(parts[0]) + params_of_parts(t.subrange(0, k - 1))) + params_of_part(parts[k])
            == params_of_part(parts[0]) + (params_of_parts(t.subrange(0, k - 1)) + params_of_part(parts[k])));
    }
}

/// Parameters declared by the part `cs[lo..hi]`, appended to `out`.
fn push_params_of_part(s: &str, cs: &[char], lo: usize, hi: usize, out: &mut Vec<VoParam>)
    requires
        cs@ == s@,
        lo <= hi <= cs@.len(),
    ensures
        final(out)@.map_values(|p: VoParam| p.model())
            == old(out)@.map_values(|p: VoParam| p.model()) + params_of_part(cs@.subrange(lo as int, hi as int)),
{
    let ghost part = cs@.subrange(lo as int, hi as int);
    let (a, b) = trim_range(cs, lo, hi);
    let toks = split_ws_ranges(cs, a, b);
    let ghost tw = text::split_ws(text::trim(part));
    assert(text::pieces(cs@, toks@) == tw);
    assert(toks@.len() == tw.len());
    let ghost before = out@.map_values(|p: VoParam| p.model());
    if toks.len() >= 2 {
        let last = toks[toks.len() - 1];
        assert(tw.last() == cs@.subrange(last.0 as int, last.1 as int));
        let ty = parse_in(s, cs, last.0, last.1);
        let ghost tym = parse_type_spec(tw.last());
        let ghost names = tw.drop_last();
        let mut k: usize = 0;
        while k < toks.len() - 1
            invariant
                cs@ == s@,
                2 <= toks@.len(),
                toks@.len() == tw.len(),
                text::pieces(cs@, toks@) == tw,
                text::ranges_within(toks@, a as int, b as int),
                b <= cs@.len(),
                ty.model() == tym,
                names == tw.drop_last(),
                0 <= k <= toks.len() - 1,
                out@.map_values(|p: VoParam| p.model())
                    == before + names.subrange(0, k as int).map_values(|n: Seq<char>| ParamModel { name: trim_commas(n), ty: tym }),
            decreases toks.len() - 1 - k,
        {
            let r = toks[k];
            assert(tw[k as int] == cs@.subrange(r.0 as int, r.1 as int));
            let e = trim_commas_end(cs, r.0, r.1);
            let name = substring(s, r.0, e);
            let p = VoParam { name, ty: ty.duplicate() };
            let ghost prev = out@;
            out.push(p);
            proof {
                assert(out@.map_values(|p: VoParam| p.model()) == prev.map_values(|p: VoParam| p.model()).push(p.model()));
                assert(names.subrange(0, k + 1) == names.subrange(0, k as int).push(names[k as int]));
                assert(names.subrange(0, k + 1).map_values(|n: Seq<char>| ParamModel { name: trim_commas(n), ty: tym })
                    == names.subrange(0, k as int).map_values(|n: Seq<char>| ParamModel { name: trim_commas(n), ty: tym }).push(ParamModel { name: trim_commas(names[k as int]), ty: tym }));
            }
            k = k + 1;
        }
        assert(names.subrange(0, names.len() as int) == names);
    } else if toks.len() == 1 {
        let r = toks[0];
        let ty = parse_in(s, cs, r.0, r.1);
        let p = VoParam { name: String::new(), ty };
        let ghost prev = out@;
        out.push(p);
        assert(out@.map_values(|p: VoParam| p.model()) == prev.map_values(|p: VoParam| p.model()).push(p.model()));
        assert(p.model() == ParamModel { name: Seq::empty(), ty: parse_type_spec(tw[0]) });
    } else {
        assert(before + Seq::<ParamModel>::empty() == before);
    }
}

/// Parse a parameter list (the text between the parentheses of a signature).
pub fn parse_params(s: &str) -> (r: Vec<VoParam>)
    ensures
        r@.map_values(|p: VoParam| p.model()) == params_spec(s@),
{
    let cs = chars_of(s);
    let mut out: Vec<VoParam> = Vec::new();
    assert(cs@.subrange(0, cs@.len() as int) == s@);
    let (a, b) = trim_range(cs.as_slice(), 0, cs.len());
    if a == b {
        assert(out@.map_values(|p: VoParam| p.model()) =~= Seq::<ParamModel>::empty());
        return out;
    }
    let parts = split_char_ranges(cs.as_slice(), a, b, ',');
    let ghost ps = text::split_char(text::trim(s@), ',');
    assert(text::pieces(cs@, parts@) == ps);
    let mut k: usize = 0;
    while k < parts.len()
        invariant
            cs@ == s@,
            a <= b <= cs@.len(),
            text::pieces(cs@, parts@) == ps,
            text::ranges_within(parts@, a as int, b as int),
            0 <= k <= parts@.len(),
            out@.map_values(|p: VoParam| p.model()) == params_of_parts(ps.subrange(0, k as int)),
        decreases parts.len() - k,
    {
        let r = parts[k];
        assert(ps[k as int] == cs@.subrange(r.0 as int, r.1 as int));
        push_params_of_part(s, cs.as_slice(), r.0, r.1, &mut out);
        proof { lemma_params_of_parts_push(ps, k as int); }
        k = k + 1;
    }
    assert(ps.subrange(0, ps.len() as int) == ps);
    out
}

proof fn lemma_results_of_parts_push(parts: Seq<Seq<char>>, k: int)
    requires
        0 <= k < parts.len(),
    ensures
        results_of_parts(parts.subrange(0, k + 1)) == results_of_parts(parts.subrange(0, k)) + ({
            let ws = text::split_ws(text::trim(parts[k]));
            if ws.len() == 0 { Seq::<TypeModel>::empty() } else { seq![parse_type_spec(ws.last())] }
        }),
    decreases k,
{
    let a = parts.subrange(0, k + 1);
    let here = |p: Seq<char>| {
        let ws = text::split_ws(text::trim(p));
        if ws.len() == 0 { Seq::<TypeModel>::empty() } else { seq![parse_type_spec(ws.last())] }
    };
    if k == 0 {
        assert(a.drop_first() =~= Seq::<Seq<char>>::empty());
        assert(results_of_parts(a.drop_first()) == Seq::<TypeModel>::empty());
        assert(results_of_parts(parts.subrange(0, 0)) == Seq::<TypeModel>::empty());
        assert(here(parts[0]) + Seq::<TypeModel>::empty() == here(parts[0]));
    } else {
        let t = parts.drop_first();
        lemma_results_of_parts_push(t, k - 1);
        assert(a.drop_first() == t.subrange(0, k));
        assert(parts.subrange(0, k).drop_first() == t.subrange(0, k - 1));
        assert(t[k - 1] == parts[k]);
        assert(results_of_parts(a) == here(parts[0]) + results_of_parts(t.subrange(0, k)));
        assert(results_of_parts(parts.subrange(0, k)) == here(parts[0]) + results_of_parts(t.subrange(0, k - 1)));
        assert((here(parts[0]) + results_of_parts(t.subrange(0, k - 1))) + here(parts[k])
            == here(parts[0]) + (results_of_parts(t.subrange(0, k - 1)) + here(parts[k])));
    }
}

/// Parse the result list that follows the parameters: empty, a single type, or a
/// parenthesized list (named results keep only their type).
pub fn parse_returns(s: &str) -> (r: Vec<VoType>)
    ensures
        r@.map_values(|t: VoType| t.model()) == returns_spec(s@),
{
    let cs = chars_of(s);
    let mut out: Vec<VoType> = Vec::new();
    assert(cs@.subrange(0, cs@.len() as int) == s@);
    let (a, b) = trim_range(cs.as_slice(), 0, cs.len());
    let ghost t = text::trim(s@);
    assert(t == cs@.subrange(a as int, b as int));
    if a == b {
        assert(out@.map_values(|t: VoType| t.model()) =~= Seq::<TypeModel>::empty());
        return out;
    }
    if b - a >= 2 && cs[a] == '(' && cs[b - 1] == ')' {
        let parts = split_char_ranges(cs.as_slice(), a + 1, b - 1, ',');
        let ghost ps = text::split_char(t.subrange(1, t.len() - 1), ',');
        assert(t.subrange(1, t.len() - 1) == cs@.subrange(a + 1, b - 1));
        let mut k: usize = 0;
        while k < parts.len()
            invariant
                cs@ == s@,
                a + 1 <= b - 1 <= cs@.len(),
                text::pieces(cs@, parts@) == ps,
                text::ranges_within(parts@, a + 1, b - 1),
                0 <= k <= parts@.len(),
                out@.map_values(|t: VoType| t.model()) == results_of_parts(ps.subrange(0, k as int)),
            decreases parts.len() - k,
        {
            let r = parts[k];
            assert(ps[k as int] == cs@.subrange(r.0 as int, r.1 as int));
            let (pa, pb) = trim_range(cs.as_slice(), r.0, r.1);
            let ws = split_ws_ranges(cs.as_slice(), pa, pb);
            let ghost wsv = text::split_ws(text::trim(ps[k as int]));
            assert(text::pieces(cs@, ws@) == wsv);
            let ghost prev = out@;
            proof { lemma_results_of_parts_push(ps, k as int); }
            if ws.len() > 0 {
                let w = ws[ws.len() - 1];
                assert(wsv.last() == cs@.subrange(w.0 as int, w.1 as int));
                let ty = parse_in(s, cs.as_slice(), w.0, w.1);
                out.push(ty);
                assert(out@.map_values(|t: VoType| t.model()) == prev.map_values(|t: VoType| t.model()).push(ty.model()));
            } else {
                assert(prev.map_values(|t: VoType| t.model()) + Seq::<TypeModel>::empty() == prev.map_values(|t: VoType| t.model()));
            }
            k = k + 1;
        }
        assert(ps.subrange(0, ps.len() as int) == ps);
        return out;
    }
    let ty = parse_in(s, cs.as_slice(), a, b);
    proof {
        lemma_trim_idempotent(s@);
    }
    out.push(ty);
    assert(out@.map_values(|t: VoType| t.model()) =~= seq![parse_type_spec(t)]);
    out
}

/// Parse `func name(params) results` from a signature string.
pub fn parse_func_signature(sig: &str, name: &str) -> (r: Option<VoFuncSig>)
    requires
        !(sig_spec(sig@, name@) is Aborts),
    ensures
        option_matches(
            match r {
                Some(x) => Some(x.model()),
                None => None,
            },
            sig_spec(sig@, name@),
        ),
{
    let cs = chars_of(sig);
    let n = cs.len();
    assert(cs@.subrange(0, n as int) == sig@);
    let kw = chars_of("func ");
    proof { reveal_strlit("func "); }
    if !crate::text::range_starts_with(cs.as_slice(), 0, n, kw.as_slice()) {
        return None;
    }
    let (r1, _) = crate::text::trim_start_range(cs.as_slice(), 5, n);
    assert(sig@.subrange(5, sig@.len() as int) == cs@.subrange(5, n as int));
    let nc = chars_of(name);
    if !crate::text::range_starts_with(cs.as_slice(), r1, n, nc.as_slice()) {
        return None;
    }
    let ghost rr1 = cs@.subrange(r1 as int, n as int);
    assert(rr1.subrange(name@.len() as int, rr1.len() as int) == cs@.subrange(r1 + nc.len(), n as int));
    let (r2, _) = crate::text::trim_start_range(cs.as_slice(), r1 + nc.len(), n);
    let ghost rest = cs@.subrange(r2 as int, n as int);
    assert(sig_rest(sig@, name@) == Some(rest));
    let ps = crate::text::find_char_in(cs.as_slice(), r2, n, '(');
    let pe = crate::text::find_char_in(cs.as_slice(), r2, n, ')');
    match (ps, pe) {
        (Some(a), Some(b)) => {
            assert(b >= a + 1);
            let params_str = substring(sig, a + 1, b);
            assert(rest.subrange(a - r2 + 1, b - r2) == params_str@);
            let params = parse_params(params_str.as_str());
            let returns_str = substring(sig, b + 1, n);
            assert(rest.subrange(b - r2 + 1, rest.len() as int) == returns_str@);
            let results = parse_returns(returns_str.as_str());
            let nm = substring(name, 0, nc.len());
            assert(name@.subrange(0, name@.len() as int) == name@);
            Some(VoFuncSig { name: nm, params, results, is_extern: true })
        },
        _ => None,
    }
}

/// Index of the first non-blank line at or after `k`, or the number of lines.
fn next_nonblank_exec(cs: &[char], ls: &Vec<(usize, usize)>, k0: usize) -> (r: usize)
    requires
        text::ranges_within(ls@, 0, cs@.len() as int),
        k0 <= ls@.len(),
    ensures
        r == next_nonblank(text::pieces(cs@, ls@), k0 as int),
        k0 <= r <= ls@.len(),
{
    let ghost lsv = text::pieces(cs@, ls@);
    let n = ls.len();
    let mut k = k0;
    while k < n
        invariant
            text::ranges_within(ls@, 0, cs@.len() as int),
            lsv == text::pieces(cs@, ls@),
            n == ls@.len(),
            k0 <= k <= n,
            next_nonblank(lsv, k0 as int) == next_nonblank(lsv, k as int),
        decreases n - k,
    {
        let (ka, kb) = ls[k];
        assert(lsv[k as int] == cs@.subrange(ka as int, kb as int));
        let (ta, tb) = trim_range(cs, ka, kb);
        if ta != tb {
            return k;
        }
        k = k + 1;
    }
    k
}

/// Whether the line `cs[la..lb]` declares function `nc` (`func nc(...`), and if so the
/// positions of the line without surrounding white space.
fn line_declares(cs: &[char], la: usize, lb: usize, kw: &Vec<char>, nc: &Vec<char>) -> (r: Option<(usize, usize)>)
    requires
        la <= lb <= cs@.len(),
        kw@ == "func "@,
        kw@.len() == 5,
    ensures
        ({
            let trimmed = text::trim(cs@.subrange(la as int, lb as int));
            match r {
                Some((ta, tb)) => trimmed == cs@.subrange(ta as int, tb as int) && la <= ta <= tb <= lb
                    && text::starts_with(trimmed, "func "@) && decl_name(trimmed) == nc@,
                None => !text::starts_with(trimmed, "func "@) || decl_name(trimmed) != nc@,
            }
        }),
{
    let (ta, tb) = trim_range(cs, la, lb);
    let ghost trimmed = text::trim(cs@.subrange(la as int, lb as int));
    assert(trimmed == cs@.subrange(ta as int, tb as int));
    if !crate::text::range_starts_with(cs, ta, tb, kw.as_slice()) {
        return None;
    }
    assert(trimmed.subrange(5, trimmed.len() as int) == cs@.subrange(ta + 5, tb as int));
    let (ra, _) = crate::text::trim_start_range(cs, ta + 5, tb);
    let ghost rest = cs@.subrange(ra as int, tb as int);
    let name_end = match crate::text::find_char_in(cs, ra, tb, '(') {
        Some(k) => k,
        None => tb,
    };
    assert(rest.subrange(0, name_end - ra) == cs@.subrange(ra as int, name_end as int));
    let (na, nb) = trim_range(cs, ra, name_end);
    assert(decl_name(trimmed) == cs@.subrange(na as int, nb as int));
    if range_eq(cs, na, nb, nc.as_slice()) {
        Some((ta, tb))
    } else {
        None
    }
}

/// The text of the declaration starting on line `i` and whether it has a body.
fn scan_decl_exec(
    source: &str,
    cs: &[char],
    ls: &Vec<(usize, usize)>,
    i: usize,
    first: String,
) -> (r: (bool, String))
    requires
        cs@ == source@,
        text::ranges_within(ls@, 0, cs@.len() as int),
        i < ls@.len(),
    ensures
        (r.0, r.1@) == scan_decl(text::pieces(cs@, ls@), i as int, i as int, first@),
{
    let ghost lsv = text::pieces(cs@, ls@);
    let n = ls.len();
    let mut j = i;
    let mut full = first;
    let mut has_body = false;
    loop
        invariant_except_break
            cs@ == source@,
            text::ranges_within(ls@, 0, cs@.len() as int),
            lsv == text::pieces(cs@, ls@),
            n == ls@.len(),
            i <= j <= n,
            !has_body,
            scan_decl(lsv, i as int, i as int, first@) == scan_decl(lsv, i as int, j as int, full@),
        ensures
            scan_decl(lsv, i as int, i as int, first@) == (has_body, full@),
        decreases n - j,
    {
        if j >= n {
            break;
        }
        let (la, lb) = ls[j];
        assert(lsv[j as int] == cs@.subrange(la as int, lb as int));
        if crate::text::range_contains_char(cs, la, lb, '{') {
            has_body = true;
            break;
        }
        let ghost before = full@;
        if j > i {
            let (ta, tb) = trim_range(cs, la, lb);
            let piece = substring(source, ta, tb);
            full.append(piece.as_str());
        }
        if crate::text::range_contains_char(cs, la, lb, ')') {
            let k = next_nonblank_exec(cs, ls, j + 1);
            if k < n {
                let (ka, kb) = ls[k];
                assert(lsv[k as int] == cs@.subrange(ka as int, kb as int));
                let (ta, tb) = trim_range(cs, ka, kb);
                has_body = tb > ta && cs[ta] == '{';
                proof {
                    let t = text::trim(lsv[k as int]);
                    assert(t == cs@.subrange(ta as int, tb as int));
                    if tb > ta {
                        assert(t.subrange(0, 1) =~= seq![cs@[ta as int]]);
                        if text::starts_with(t, seq!['{']) {
                            assert(t.subrange(0, 1)[0] == '{');
                        }
                    }
                    assert(has_body == text::starts_with(t, seq!['{']));
                }
            } else {
                has_body = false;
            }
            proof {
                let full2 = if j > i { before + text::trim(lsv[j as int]) } else { before };
                assert(full@ == full2);
                assert(!text::contains_char(lsv[j as int], '{'));
                assert(text::contains_char(lsv[j as int], ')'));
                assert(k == next_nonblank(lsv, j + 1));
                assert(has_body == (k < lsv.len() && text::starts_with(text::trim(lsv[k as int]), seq!['{'])));
                assert(scan_decl(lsv, i as int, j as int, before) == (has_body, full@));
            }
            break;
        }
        j = j + 1;
    }
    (has_body, full)
}

/// Find the extern (body-less) declaration of `func_name` in a source text and parse
/// its signature.
pub fn parse_extern_func(source: &str, func_name: &str) -> (r: Option<VoFuncSig>)
    requires
        !(parse_extern_spec(source@, func_name@) is Aborts),
    ensures
        option_matches(
            match r {
                Some(x) => Some(x.model()),
                None => None,
            },
            parse_extern_spec(source@, func_name@),
        ),
{
    let cs = chars_of(source);
    let n = cs.len();
    assert(cs@.subrange(0, n as int) == source@);
    let ls = crate::text::lines_ranges(cs.as_slice(), 0, n);
    let ghost lsv = text::pieces(cs@, ls@);
    let kw = chars_of("func ");
    let nc = chars_of(func_name);
    proof { reveal_strlit("func "); }
    let mut i: usize = 0;
    while i < ls.len()
        invariant
            cs@ == source@,
            n == cs@.len(),
            kw@ == "func "@,
            nc@ == func_name@,
            text::ranges_within(ls@, 0, n as int),
            lsv == text::pieces(cs@, ls@),
            lsv == text::lines(source@),
            kw@.len() == 5,
            !(extern_from(lsv, func_name@, 0) is Aborts),
            0 <= i <= ls@.len(),
            extern_from(lsv, func_name@, 0) == extern_from(lsv, func_name@, i as int),
        decreases ls.len() - i,
    {
        let (la, lb) = ls[i];
        assert(lsv[i as int] == cs@.subrange(la as int, lb as int));
        match line_declares(cs.as_slice(), la, lb, &kw, &nc) {
            Some((ta, tb)) => {
                let first = substring(source, ta, tb);
                let (has_body, full) = scan_decl_exec(source, cs.as_slice(), &ls, i, first);
                if !has_body {
                    return parse_func_signature(full.as_str(), func_name);
                }
            },
            None => {},
        }
        i = i + 1;
    }
    None
}

/// Trimming twice is trimming once.
pub proof fn lemma_trim_idempotent(s: Seq<char>)
    ensures
        text::trim(text::trim(s)) == text::trim(s),
{
    let t = text::trim(s);
    text::lemma_trim_len(s);
    text::lemma_ws_prefix_len_bound(s);
    let u = text::trim_start(s);
    text::lemma_ws_suffix_len_bound(u);
    // t has no leading or trailing white space
    if t.len() > 0 {
        lemma_trim_edges(s);
    }
    text::lemma_ws_prefix_len_char(t, 0);
    assert(text::trim_start(t) == t);
    text::lemma_ws_suffix_len_char(t, 0);
    assert(text::trim_end(t) =~= t);
}

/// A non-empty trimmed sequence neither starts nor ends with white space.
pub proof fn lemma_trim_edges(s: Seq<char>)
    ensures
        text::trim(s).len() > 0 ==> !text::is_ws(text::trim(s)[0]) && !text::is_ws(text::trim(s).last()),
{
    text::lemma_ws_prefix_len_bound(s);
    let u = text::trim_start(s);
    text::lemma_ws_suffix_len_bound(u);
    lemma_ws_prefix_facts(s);
    lemma_ws_suffix_facts(u);
    let t = text::trim(s);
    if t.len() > 0 {
        assert(t[0] == u[0]);
        assert(t.last() == u[u.len() - text::ws_suffix_len(u) - 1]);
    }
}

proof fn lemma_ws_prefix_facts(s: Seq<char>)
    ensures
        text::ws_prefix_len(s) < s.len() ==> !text::is_ws(s[text::ws_prefix_len(s) as int]),
    decreases s.len(),
{
    if s.len() > 0 && text::is_ws(s[0]) {
        lemma_ws_prefix_facts(s.drop_first());
    }
}

proof fn lemma_ws_suffix_facts(s: Seq<char>)
    ensures
        text::ws_suffix_len(s) < s.len() ==> !text::is_ws(s[s.len() - text::ws_suffix_len(s) - 1]),
    decreases s.len(),
{
    if s.len() > 0 && text::is_ws(s.last()) {
        lemma_ws_suffix_facts(s.drop_last());
    }
}


/// The keyword a predeclared type is written with (`uint8` for bytes), and for a
/// pointer or slice type the text `*T` or `[]T`; empty for the other types.
pub open spec fn type_model_text(t: TypeModel) -> Seq<char>
    decreases t,
{
    match t {
        TypeModel::Int => "int"@,
        TypeModel::Int8 => "int8"@,
        TypeModel::Int16 => "int16"@,
        TypeModel::Int32 => "int32"@,
        TypeModel::Int64 => "int64"@,
        TypeModel::Uint => "uint"@,
        TypeModel::Uint8 => "uint8"@,
        TypeModel::Uint16 => "uint16"@,
        TypeModel::Uint32 => "uint32"@,
        TypeModel::Uint64 => "uint64"@,
        TypeModel::Float32 => "float32"@,
        TypeModel::Float64 => "float64"@,
        TypeModel::Bool => "bool"@,
        TypeModel::Str => "string"@,
        TypeModel::Any => "any"@,
        TypeModel::Pointer(inner) => seq!['*'] + type_model_text(*inner),
        TypeModel::Slice(inner) => "[]"@ + type_model_text(*inner),
        _ => Seq::empty(),
    }
}

/// A type written with keywords only: a predeclared type, or a pointer or slice of one.
pub open spec fn is_keyword_type(t: TypeModel) -> bool
    decreases t,
{
    match t {
        TypeModel::Named(_) | TypeModel::Array(_, _) => false,
        TypeModel::Pointer(inner) => is_keyword_type(*inner),
        TypeModel::Slice(inner) => is_keyword_type(*inner),
        _ => true,
    }
}

proof fn lemma_trim_unchanged(s: Seq<char>)
    requires
        s.len() > 0,
        !text::is_ws(s[0]),
        !text::is_ws(s.last()),
    ensures
        text::trim(s) == s,
{
    assert(text::ws_prefix_len(s) == 0);
    assert(text::trim_start(s) =~= s);
    assert(text::ws_suffix_len(s) == 0);
    assert(text::trim_end(s) =~= s);
}

proof fn lemma_keyword_starts_with_letter(s: Seq<char>)
    requires
        keyword_type(s) is Some,
    ensures
        s.len() > 0,
        'a' <= s[0] <= 'z',
{
    reveal_strlit("int");
    reveal_strlit("int8");
    reveal_strlit("int16");
    reveal_strlit("int32");
    reveal_strlit("int64");
    reveal_strlit("uint");
    reveal_strlit("uint8");
    reveal_strlit("uint16");
    reveal_strlit("uint32");
    reveal_strlit("uint64");
    reveal_strlit("float32");
    reveal_strlit("float64");
    reveal_strlit("bool");
    reveal_strlit("string");
    reveal_strlit("any");
    reveal_strlit("byte");
}

proof fn lemma_scalar_keyword(t: TypeModel)
    requires
        is_keyword_type(t),
        !(t is Pointer),
        !(t is Slice),
    ensures
        keyword_type(type_model_text(t)) == Some(t),
        type_model_text(t).len() > 0,
        'a' <= type_model_text(t)[0] <= 'z',
        ('a' <= type_model_text(t).last() <= 'z') || ('0' <= type_model_text(t).last() <= '9'),
{
    reveal_strlit("int");
    reveal_strlit("int8");
    reveal_strlit("int16");
    reveal_strlit("int32");
    reveal_strlit("int64");
    reveal_strlit("uint");
    reveal_strlit("uint8");
    reveal_strlit("uint16");
    reveal_strlit("uint32");
    reveal_strlit("uint64");
    reveal_strlit("float32");
    reveal_strlit("float64");
    reveal_strlit("bool");
    reveal_strlit("string");
    reveal_strlit("any");
    reveal_strlit("byte");
    match t {
        TypeModel::Int => {
        },
        TypeModel::Int8 => {
            assert("int8"@ != "int"@) by { assert("int8"@.len() != "int"@.len()); }
        },
        TypeModel::Int16 => {
            assert("int16"@ != "int"@) by { assert("int16"@.len() != "int"@.len()); }
            assert("int16"@ != "int8"@) by { assert("int16"@.len() != "int8"@.len()); }
        },
        TypeModel::Int32 => {
            assert("int32"@ != "int"@) by { assert("int32"@.len() != "int"@.len()); }
            assert("int32"@ != "int8"@) by { assert("int32"@.len() != "int8"@.len()); }
            assert("int32"@ != "int16"@) by { assert("int32"@[3] != "int16"@[3]); }
        },
        TypeModel::Int64 => {
            assert("int64"@ != "int"@) by { assert("int64"@.len() != "int"@.len()); }
            assert("int64"@ != "int8"@) by { assert("int64"@.len() != "int8"@.len()); }
            assert("int64"@ != "int16"@) by { assert("int64"@[3] != "int16"@[3]); }
            assert("int64"@ != "int32"@) by { assert("int64"@[3] != "int32"@[3]); }
        },
        TypeModel::Uint => {
            assert("uint"@ != "int"@) by { assert("uint"@.len() != "int"@.len()); }
            assert("uint"@ != "int8"@) by { assert("uint"@[0] != "int8"@[0]); }
            assert("uint"@ != "int16"@) by { assert("uint"@.len() != "int16"@.len()); }
            assert("uint"@ != "int32"@) by { assert("uint"@.len() != "int32"@.len()); }
            assert("uint"@ != "int64"@) by { assert("uint"@.len() != "int64"@.len()); }
        },
        TypeModel::Uint8 => {
            assert("uint8"@ != "int"@) by { assert("uint8"@.len() != "int"@.len()); }
            assert("uint8"@ != "int8"@) by { assert("uint8"@.len() != "int8"@.len()); }
            assert("uint8"@ != "int16"@) by { assert("uint8"@[0] != "int16"@[0]); }
            assert("uint8"@ != "int32"@) by { assert("uint8"@[0] != "int32"@[0]); }
            assert("uint8"@ != "int64"@) by { assert("uint8"@[0] != "int64"@[0]); }
            assert("uint8"@ != "uint"@) by { assert("uint8"@.len() != "uint"@.len()); }
        },
        TypeModel::Uint16 => {
            assert("uint16"@ != "int"@) by { assert("uint16"@.len() != "int"@.len()); }
            assert("uint16"@ != "int8"@) by { assert("uint16"@.len() != "int8"@.len()); }
            assert("uint16"@ != "int16"@) by { assert("uint16"@.len() != "int16"@.len()); }
            assert("uint16"@ != "int32"@) by { assert("uint16"@.len() != "int32"@.len()); }
            assert("uint16"@ != "int64"@) by { assert("uint16"@.len() != "int64"@.len()); }
            assert("uint16"@ != "uint"@) by { assert("uint16"@.len() != "uint"@.len()); }
            assert("uint16"@ != "uint8"@) by { assert("uint16"@.len() != "uint8"@.len()); }
            assert("uint16"@ != "byte"@) by { assert("uint16"@.len() != "byte"@.len()); }
        },
        TypeModel::Uint32 => {
            assert("uint32"@ != "int"@) by { assert("uint32"@.len() != "int"@.len()); }
            assert("uint32"@ != "int8"@) by { assert("uint32"@.len() != "int8"@.len()); }
            assert("uint32"@ != "int16"@) by { assert("uint32"@.len() != "int16"@.len()); }
            assert("uint32"@ != "int32"@) by { assert("uint32"@.len() != "int32"@.len()); }
            assert("uint32"@ != "int64"@) by { assert("uint32"@.len() != "int64"@.len()); }
            assert("uint32"@ != "uint"@) by { assert("uint32"@.len() != "uint"@.len()); }
            assert("uint32"@ != "uint8"@) by { assert("uint32"@.len() != "uint8"@.len()); }
            assert("uint32"@ != "uint16"@) by { assert("uint32"@[4] != "uint16"@[4]); }
            assert("uint32"@ != "byte"@) by { assert("uint32"@.len() != "byte"@.len()); }
        },
        TypeModel::Uint64 => {
            assert("uint64"@ != "int"@) by { assert("uint64"@.len() != "int"@.len()); }
            assert("uint64"@ != "int8"@) by { assert("uint64"@.len() != "int8"@.len()); }
            assert("uint64"@ != "int16"@) by { assert("uint64"@.len() != "int16"@.len()); }
            assert("uint64"@ != "int32"@) by { assert("uint64"@.len() != "int32"@.len()); }
            assert("uint64"@ != "int64"@) by { assert("uint64"@.len() != "int64"@.len()); }
            assert("uint64"@ != "uint"@) by { assert("uint64"@.len() != "uint"@.len()); }
            assert("uint64"@ != "uint8"@) by { assert("uint64"@.len() != "uint8"@.len()); }
            assert("uint64"@ != "uint16"@) by { assert("uint64"@[4] != "uint16"@[4]); }
            assert("uint64"@ != "uint32"@) by { assert("uint64"@[4] != "uint32"@[4]); }
            assert("uint64"@ != "byte"@) by { assert("uint64"@.len() != "byte"@.len()); }
        },
        TypeModel::Float32 => {
            assert("float32"@ != "int"@) by { assert("float32"@.len() != "int"@.len()); }
            assert("float32"@ != "int8"@) by { assert("float32"@.len() != "int8"@.len()); }
            assert("float32"@ != "int16"@) by { assert("float32"@.len() != "int16"@.len()); }
            assert("float32"@ != "int32"@) by { assert("float32"@.len() != "int32"@.len()); }
            assert("float32"@ != "int64"@) by { assert("float32"@.len() != "int64"@.len()); }
            assert("float32"@ != "uint"@) by { assert("float32"@.len() != "uint"@.len()); }
            assert("float32"@ != "uint8"@) by { assert("float32"@.len() != "uint8"@.len()); }
            assert("float32"@ != "uint16"@) by { assert("float32"@.len() != "uint16"@.len()); }
            assert("float32"@ != "uint32"@) by { assert("float32"@.len() != "uint32"@.len()); }
            assert("float32"@ != "uint64"@) by { assert("float32"@.len() != "uint64"@.len()); }
            assert("float32"@ != "byte"@) by { assert("float32"@.len() != "byte"@.len()); }
        },
        TypeModel::Float64 => {
            assert("float64"@ != "int"@) by { assert("float64"@.len() != "int"@.len()); }
            assert("float64"@ != "int8"@) by { assert("float64"@.len() != "int8"@.len()); }
            assert("float64"@ != "int16"@) by { assert("float64"@.len() != "int16"@.len()); }
            assert("float64"@ != "int32"@) by { assert("float64"@.len() != "int32"@.len()); }
            assert("float64"@ != "int64"@) by { assert("float64"@.len() != "int64"@.len()); }
            assert("float64"@ != "uint"@) by { assert("float64"@.len() != "uint"@.len()); }
            assert("float64"@ != "uint8"@) by { assert("float64"@.len() != "uint8"@.len()); }
            assert("float64"@ != "uint16"@) by { assert("float64"@.len() != "uint16"@.len()); }
            assert("float64"@ != "uint32"@) by { assert("float64"@.len() != "uint32"@.len()); }
            assert("float64"@ != "uint64"@) by { assert("float64"@.len() != "uint64"@.len()); }
            assert("float64"@ != "float32"@) by { assert("float64"@[5] != "float32"@[5]); }
            assert("float64"@ != "byte"@) by { assert("float64"@.len() != "byte"@.len()); }
        },
        TypeModel::Bool => {
            assert("bool"@ != "int"@) by { assert("bool"@.len() != "int"@.len()); }
            assert("bool"@ != "int8"@) by { assert("bool"@[0] != "int8"@[0]); }
            assert("bool"@ != "int16"@) by { assert("bool"@.len() != "int16"@.len()); }
            assert("bool"@ != "int32"@) by { assert("bool"@.len() != "int32"@.len()); }
            assert("bool"@ != "int64"@) by { assert("bool"@.len() != "int64"@.len()); }
            assert("bool"@ != "uint"@) by { assert("bool"@[0] != "uint"@[0]); }
            assert("bool"@ != "uint8"@) by { assert("bool"@.len() != "uint8"@.len()); }
            assert("bool"@ != "uint16"@) by { assert("bool"@.len() != "uint16"@.len()); }
            assert("bool"@ != "uint32"@) by { assert("bool"@.len() != "uint32"@.len()); }
            assert("bool"@ != "uint64"@) by { assert("bool"@.len() != "uint64"@.len()); }
            assert("bool"@ != "float32"@) by { assert("bool"@.len() != "float32"@.len()); }
            assert("bool"@ != "float64"@) by { assert("bool"@.len() != "float64"@.len()); }
            assert("bool"@ != "byte"@) by { assert("bool"@[1] != "byte"@[1]); }
        },
        TypeModel::Str => {
            assert("string"@ != "int"@) by { assert("string"@.len() != "int"@.len()); }
            assert("string"@ != "int8"@) by { assert("string"@.len() != "int8"@.len()); }
            assert("string"@ != "int16"@) by { assert("string"@.len() != "int16"@.len()); }
            assert("string"@ != "int32"@) by { assert("string"@.len() != "int32"@.len()); }
            assert("string"@ != "int64"@) by { assert("string"@.len() != "int64"@.len()); }
            assert("string"@ != "uint"@) by { assert("string"@.len() != "uint"@.len()); }
            assert("string"@ != "uint8"@) by { assert("string"@.len() != "uint8"@.len()); }
            assert("string"@ != "uint16"@) by { assert("string"@[0] != "uint16"@[0]); }
            assert("string"@ != "uint32"@) by { assert("string"@[0] != "uint32"@[0]); }
            assert("string"@ != "uint64"@) by { assert("string"@[0] != "uint64"@[0]); }
            assert("string"@ != "float32"@) by { assert("string"@.len() != "float32"@.len()); }
            assert("string"@ != "float64"@) by { assert("string"@.len() != "float64"@.len()); }
            assert("string"@ != "bool"@) by { assert("string"@.len() != "bool"@.len()); }
            assert("string"@ != "byte"@) by { assert("string"@.len() != "byte"@.len()); }
        },
        TypeModel::Any => {
            assert("any"@ != "int"@) by { assert("any"@[0] != "int"@[0]); }
            assert("any"@ != "int8"@) by { assert("any"@.len() != "int8"@.len()); }
            assert("any"@ != "int16"@) by { assert("any"@.len() != "int16"@.len()); }
            assert("any"@ != "int32"@) by { assert("any"@.len() != "int32"@.len()); }
            assert("any"@ != "int64"@) by { assert("any"@.len() != "int64"@.len()); }
            assert("any"@ != "uint"@) by { assert("any"@.len() != "uint"@.len()); }
            assert("any"@ != "uint8"@) by { assert("any"@.len() != "uint8"@.len()); }
            assert("any"@ != "uint16"@) by { assert("any"@.len() != "uint16"@.len()); }
            assert("any"@ != "uint32"@) by { assert("any"@.len() != "uint32"@.len()); }
            assert("any"@ != "uint64"@) by { assert("any"@.len() != "uint64"@.len()); }
            assert("any"@ != "float32"@) by { assert("any"@.len() != "float32"@.len()); }
            assert("any"@ != "float64"@) by { assert("any"@.len() != "float64"@.len()); }
            assert("any"@ != "bool"@) by { assert("any"@.len() != "bool"@.len()); }
            assert("any"@ != "string"@) by { assert("any"@.len() != "string"@.len()); }
            assert("any"@ != "byte"@) by { assert("any"@.len() != "byte"@.len()); }
        },
        _ => {},
    }
}

proof fn lemma_keyword_text_ends(t: TypeModel)
    requires
        is_keyword_type(t),
    ensures
        type_model_text(t).len() > 0,
        ('a' <= type_model_text(t).last() <= 'z') || ('0' <= type_model_text(t).last() <= '9'),
    decreases t,
{
    match t {
        TypeModel::Pointer(inner) => {
            lemma_keyword_text_ends(*inner);
        },
        TypeModel::Slice(inner) => {
            reveal_strlit("[]");
            lemma_keyword_text_ends(*inner);
        },
        _ => {
            lemma_scalar_keyword(t);
        },
    }
}

/// Writing a type with keywords and reading it back gives the same type: each
/// predeclared type parses from its own keyword, and `*T` and `[]T` from theirs.
pub proof fn lemma_keyword_type_roundtrip(t: TypeModel)
    requires
        is_keyword_type(t),
    ensures
        parse_type_spec(type_model_text(t)) == t,
    decreases t,
{
    let s = type_model_text(t);
    lemma_keyword_text_ends(t);
    match t {
        TypeModel::Pointer(inner) => {
            assert(s[0] == '*');
            lemma_trim_unchanged(s);
            if keyword_type(s) is Some {
                lemma_keyword_starts_with_letter(s);
            }
            lemma_keyword_type_roundtrip(*inner);
            assert(s.subrange(1, s.len() as int) =~= type_model_text(*inner));
        },
        TypeModel::Slice(inner) => {
            reveal_strlit("[]");
            assert(s[0] == '[' && s[1] == ']');
            lemma_trim_unchanged(s);
            if keyword_type(s) is Some {
                lemma_keyword_starts_with_letter(s);
            }
            lemma_keyword_type_roundtrip(*inner);
            assert(s.subrange(2, s.len() as int) =~= type_model_text(*inner));
        },
        _ => {
            lemma_scalar_keyword(t);
            lemma_trim_unchanged(s);
        },
    }
}


/// The signature parser and the type-expression converter agree on the predeclared
/// types: the keyword of each stands for the same type in both, and both ask an
/// extern implementation for the same Rust type.
pub proof fn lemma_keyword_types_agree(t: TypeModel)
    requires
        is_keyword_type(t),
        !(t is Pointer),
        !(t is Slice),
    ensures
        vo_types::predeclared_type(type_model_text(t)) matches Some(v)
            && rust_type_name(t) == vo_types::rust_type_for(v),
{
    reveal_strlit("int");
    reveal_strlit("int8");
    reveal_strlit("int16");
    reveal_strlit("int32");
    reveal_strlit("rune");
    reveal_strlit("int64");
    reveal_strlit("uint");
    reveal_strlit("uint8");
    reveal_strlit("byte");
    reveal_strlit("uint16");
    reveal_strlit("uint32");
    reveal_strlit("uint64");
    reveal_strlit("float32");
    reveal_strlit("float64");
    reveal_strlit("bool");
    reveal_strlit("string");
    reveal_strlit("any");
    reveal_strlit("error");
    match t {
        TypeModel::Int => {
        },
        TypeModel::Int8 => {
            assert("int8"@ != "int"@) by { assert("int8"@.len() != "int"@.len()); }
        },
        TypeModel::Int16 => {
            assert("int16"@ != "int"@) by { assert("int16"@.len() != "int"@.len()); }
            assert("int16"@ != "int8"@) by { assert("int16"@.len() != "int8"@.len()); }
        },
        TypeModel::Int32 => {
            assert("int32"@ != "int"@) by { assert("int32"@.len() != "int"@.len()); }
            assert("int32"@ != "int8"@) by { assert("int32"@.len() != "int8"@.len()); }
            assert("int32"@ != "int16"@) by { assert("int32"@[3] != "int16"@[3]); }
        },
        TypeModel::Int64 => {
            assert("int64"@ != "int"@) by { assert("int64"@.len() != "int"@.len()); }
            assert("int64"@ != "int8"@) by { assert("int64"@.len() != "int8"@.len()); }
            assert("int64"@ != "int16"@) by { assert("int64"@[3] != "int16"@[3]); }
            assert("int64"@ != "int32"@) by { assert("int64"@[3] != "int32"@[3]); }
            assert("int64"@ != "rune"@) by { assert("int64"@.len() != "rune"@.len()); }
        },
        TypeModel::Uint => {
            assert("uint"@ != "int"@) by { assert("uint"@.len() != "int"@.len()); }
            assert("uint"@ != "int8"@) by { assert("uint"@[0] != "int8"@[0]); }
            assert("uint"@ != "int16"@) by { assert("uint"@.len() != "int16"@.len()); }
            assert("uint"@ != "int32"@) by { assert("uint"@.len() != "int32"@.len()); }
            assert("uint"@ != "rune"@) by { assert("uint"@[0] != "rune"@[0]); }
            assert("uint"@ != "int64"@) by { assert("uint"@.len() != "int64"@.len()); }
        },
        TypeModel::Uint8 => {
            assert("uint8"@ != "int"@) by { assert("uint8"@.len() != "int"@.len()); }
            assert("uint8"@ != "int8"@) by { assert("uint8"@.len() != "int8"@.len()); }
            assert("uint8"@ != "int16"@) by { assert("uint8"@[0] != "int16"@[0]); }
            assert("uint8"@ != "int32"@) by { assert("uint8"@[0] != "int32"@[0]); }
            assert("uint8"@ != "rune"@) by { assert("uint8"@.len() != "rune"@.len()); }
            assert("uint8"@ != "int64"@) by { assert("uint8"@[0] != "int64"@[0]); }
            assert("uint8"@ != "uint"@) by { assert("uint8"@.len() != "uint"@.len()); }
        },
        TypeModel::Uint16 => {
            assert("uint16"@ != "int"@) by { assert("uint16"@.len() != "int"@.len()); }
            assert("uint16"@ != "int8"@) by { assert("uint16"@.len() != "int8"@.len()); }
            assert("uint16"@ != "int16"@) by { assert("uint16"@.len() != "int16"@.len()); }
            assert("uint16"@ != "int32"@) by { assert("uint16"@.len() != "int32"@.len()); }
            assert("uint16"@ != "rune"@) by { assert("uint16"@.len() != "rune"@.len()); }
            assert("uint16"@ != "int64"@) by { assert("uint16"@.len() != "int64"@.len()); }
            assert("uint16"@ != "uint"@) by { assert("uint16"@.len() != "uint"@.len()); }
            assert("uint16"@ != "uint8"@) by { assert("uint16"@.len() != "uint8"@.len()); }
            assert("uint16"@ != "byte"@) by { assert("uint16"@.len() != "byte"@.len()); }
        },
        TypeModel::Uint32 => {
            assert("uint32"@ != "int"@) by { assert("uint32"@.len() != "int"@.len()); }
            assert("uint32"@ != "int8"@) by { assert("uint32"@.len() != "int8"@.len()); }
            assert("uint32"@ != "int16"@) by { assert("uint32"@.len() != "int16"@.len()); }
            assert("uint32"@ != "int32"@) by { assert("uint32"@.len() != "int32"@.len()); }
            assert("uint32"@ != "rune"@) by { assert("uint32"@.len() != "rune"@.len()); }
            assert("uint32"@ != "int64"@) by { assert("uint32"@.len() != "int64"@.len()); }
            assert("uint32"@ != "uint"@) by { assert("uint32"@.len() != "uint"@.len()); }
            assert("uint32"@ != "uint8"@) by { assert("uint32"@.len() != "uint8"@.len()); }
            assert("uint32"@ != "byte"@) by { assert("uint32"@.len() != "byte"@.len()); }
            assert("uint32"@ != "uint16"@) by { assert("uint32"@[4] != "uint16"@[4]); }
        },
        TypeModel::Uint64 => {
            assert("uint64"@ != "int"@) by { assert("uint64"@.len() != "int"@.len()); }
            assert("uint64"@ != "int8"@) by { assert("uint64"@.len() != "int8"@.len()); }
            assert("uint64"@ != "int16"@) by { assert("uint64"@.len() != "int16"@.len()); }
            assert("uint64"@ != "int32"@) by { assert("uint64"@.len() != "int32"@.len()); }
            assert("uint64"@ != "rune"@) by { assert("uint64"@.len() != "rune"@.len()); }
            assert("uint64"@ != "int64"@) by { assert("uint64"@.len() != "int64"@.len()); }
            assert("uint64"@ != "uint"@) by { assert("uint64"@.len() != "uint"@.len()); }
            assert("uint64"@ != "uint8"@) by { assert("uint64"@.len() != "uint8"@.len()); }
            assert("uint64"@ != "byte"@) by { assert("uint64"@.len() != "byte"@.len()); }
            assert("uint64"@ != "uint16"@) by { assert("uint64"@[4] != "uint16"@[4]); }
            assert("uint64"@ != "uint32"@) by { assert("uint64"@[4] != "uint32"@[4]); }
        },
        TypeModel::Float32 => {
            assert("float32"@ != "int"@) by { assert("float32"@.len() != "int"@.len()); }
            assert("float32"@ != "int8"@) by { assert("float32"@.len() != "int8"@.len()); }
            assert("float32"@ != "int16"@) by { assert("float32"@.len() != "int16"@.len()); }
            assert("float32"@ != "int32"@) by { assert("float32"@.len() != "int32"@.len()); }
            assert("float32"@ != "rune"@) by { assert("float32"@.len() != "rune"@.len()); }
            assert("float32"@ != "int64"@) by { assert("float32"@.len() != "int64"@.len()); }
            assert("float32"@ != "uint"@) by { assert("float32"@.len() != "uint"@.len()); }
            assert("float32"@ != "uint8"@) by { assert("float32"@.len() != "uint8"@.len()); }
            assert("float32"@ != "byte"@) by { assert("float32"@.len() != "byte"@.len()); }
            assert("float32"@ != "uint16"@) by { assert("float32"@.len() != "uint16"@.len()); }
            assert("float32"@ != "uint32"@) by { assert("float32"@.len() != "uint32"@.len()); }
            assert("float32"@ != "uint64"@) by { assert("float32"@.len() != "uint64"@.len()); }
        },
        TypeModel::Float64 => {
            assert("float64"@ != "int"@) by { assert("float64"@.len() != "int"@.len()); }
            assert("float64"@ != "int8"@) by { assert("float64"@.len() != "int8"@.len()); }
            assert("float64"@ != "int16"@) by { assert("float64"@.len() != "int16"@.len()); }
            assert("float64"@ != "int32"@) by { assert("float64"@.len() != "int32"@.len()); }
            assert("float64"@ != "rune"@) by { assert("float64"@.len() != "rune"@.len()); }
            assert("float64"@ != "int64"@) by { assert("float64"@.len() != "int64"@.len()); }
            assert("float64"@ != "uint"@) by { assert("float64"@.len() != "uint"@.len()); }
            assert("float64"@ != "uint8"@) by { assert("float64"@.len() != "uint8"@.len()); }
            assert("float64"@ != "byte"@) by { assert("float64"@.len() != "byte"@.len()); }
            assert("float64"@ != "uint16"@) by { assert("float64"@.len() != "uint16"@.len()); }
            assert("float64"@ != "uint32"@) by { assert("float64"@.len() != "uint32"@.len()); }
            assert("float64"@ != "uint64"@) by { assert("float64"@.len() != "uint64"@.len()); }
            assert("float64"@ != "float32"@) by { assert("float64"@[5] != "float32"@[5]); }
        },
        TypeModel::Bool => {
            assert("bool"@ != "int"@) by { assert("bool"@.len() != "int"@.len()); }
            assert("bool"@ != "int8"@) by { assert("bool"@[0] != "int8"@[0]); }
            assert("bool"@ != "int16"@) by { assert("bool"@.len() != "int16"@.len()); }
            assert("bool"@ != "int32"@) by { assert("bool"@.len() != "int32"@.len()); }
            assert("bool"@ != "rune"@) by { assert("bool"@[0] != "rune"@[0]); }
            assert("bool"@ != "int64"@) by { assert("bool"@.len() != "int64"@.len()); }
            assert("bool"@ != "uint"@) by { assert("bool"@[0] != "uint"@[0]); }
            assert("bool"@ != "uint8"@) by { assert("bool"@.len() != "uint8"@.len()); }
            assert("bool"@ != "byte"@) by { assert("bool"@[1] != "byte"@[1]); }
            assert("bool"@ != "uint16"@) by { assert("bool"@.len() != "uint16"@.len()); }
            assert("bool"@ != "uint32"@) by { assert("bool"@.len() != "uint32"@.len()); }
            assert("bool"@ != "uint64"@) by { assert("bool"@.len() != "uint64"@.len()); }
            assert("bool"@ != "float32"@) by { assert("bool"@.len() != "float32"@.len()); }
            assert("bool"@ != "float64"@) by { assert("bool"@.len() != "float64"@.len()); }
        },
        TypeModel::Str => {
            assert("string"@ != "int"@) by { assert("string"@.len() != "int"@.len()); }
            assert("string"@ != "int8"@) by { assert("string"@.len() != "int8"@.len()); }
            assert("string"@ != "int16"@) by { assert("string"@.len() != "int16"@.len()); }
            assert("string"@ != "int32"@) by { assert("string"@.len() != "int32"@.len()); }
            assert("string"@ != "rune"@) by { assert("string"@.len() != "rune"@.len()); }
            assert("string"@ != "int64"@) by { assert("string"@.len() != "int64"@.len()); }
            assert("string"@ != "uint"@) by { assert("string"@.len() != "uint"@.len()); }
            assert("string"@ != "uint8"@) by { assert("string"@.len() != "uint8"@.len()); }
            assert("string"@ != "byte"@) by { assert("string"@.len() != "byte"@.len()); }
            assert("string"@ != "uint16"@) by { assert("string"@[0] != "uint16"@[0]); }
            assert("string"@ != "uint32"@) by { assert("string"@[0] != "uint32"@[0]); }
            assert("string"@ != "uint64"@) by { assert("string"@[0] != "uint64"@[0]); }
            assert("string"@ != "float32"@) by { assert("string"@.len() != "float32"@.len()); }
            assert("string"@ != "float64"@) by { assert("string"@.len() != "float64"@.len()); }
            assert("string"@ != "bool"@) by { assert("string"@.len() != "bool"@.len()); }
        },
        TypeModel::Any => {
            assert("any"@ != "int"@) by { assert("any"@[0] != "int"@[0]); }
            assert("any"@ != "int8"@) by { assert("any"@.len() != "int8"@.len()); }
            assert("any"@ != "int16"@) by { assert("any"@.len() != "int16"@.len()); }
            assert("any"@ != "int32"@) by { assert("any"@.len() != "int32"@.len()); }
            assert("any"@ != "rune"@) by { assert("any"@.len() != "rune"@.len()); }
            assert("any"@ != "int64"@) by { assert("any"@.len() != "int64"@.len()); }
            assert("any"@ != "uint"@) by { assert("any"@.len() != "uint"@.len()); }
            assert("any"@ != "uint8"@) by { assert("any"@.len() != "uint8"@.len()); }
            assert("any"@ != "byte"@) by { assert("any"@.len() != "byte"@.len()); }
            assert("any"@ != "uint16"@) by { assert("any"@.len() != "uint16"@.len()); }
            assert("any"@ != "uint32"@) by { assert("any"@.len() != "uint32"@.len()); }
            assert("any"@ != "uint64"@) by { assert("any"@.len() != "uint64"@.len()); }
            assert("any"@ != "float32"@) by { assert("any"@.len() != "float32"@.len()); }
            assert("any"@ != "float64"@) by { assert("any"@.len() != "float64"@.len()); }
            assert("any"@ != "bool"@) by { assert("any"@.len() != "bool"@.len()); }
            assert("any"@ != "string"@) by { assert("any"@.len() != "string"@.len()); }
        },
        _ => {},
    }
}

} // verus!
