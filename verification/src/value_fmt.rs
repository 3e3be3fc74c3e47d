//! Printing of values by the `fmt` package: the text of a slot value according to
//! its kind, and the output buffer that collects printed text where there is no
//! standard output.

use vstd::prelude::*;
use crate::strbuf::{self, push_char, push_decimal_i64, push_radix, push_str};
use crate::value::ValueKind;
use crate::vo_const;

verus! {

broadcast use vstd::string::group_string_axioms;

/// Floating-point kinds, whose text is not produced here.
pub open spec fn is_float_kind(kind: ValueKind) -> bool {
    kind == ValueKind::Float32 || kind == ValueKind::Float64
}

/// Text of a slot value of the given kind. A string value is a reference, nil when
/// 0; `string_text` holds the text of the string it refers to.
pub open spec fn value_text(val: u64, kind: ValueKind, string_text: Seq<char>) -> Seq<char> {
    match kind {
        ValueKind::Void => "nil"@,
        ValueKind::Bool => if val != 0 { "true"@ } else { "false"@ },
        ValueKind::Int | ValueKind::Int64 => strbuf::signed_decimal((val as i64) as int),
        ValueKind::Int8 => strbuf::signed_decimal((val as i8) as int),
        ValueKind::Int16 => strbuf::signed_decimal((val as i16) as int),
        ValueKind::Int32 => strbuf::signed_decimal((val as i32) as int),
        ValueKind::Uint | ValueKind::Uint64 => strbuf::radix_digits(val as nat, 10),
        ValueKind::Uint8 => strbuf::radix_digits((val as u8) as nat, 10),
        ValueKind::Uint16 => strbuf::radix_digits((val as u16) as nat, 10),
        ValueKind::Uint32 => strbuf::radix_digits((val as u32) as nat, 10),
        ValueKind::String => if val == 0 {
            seq!['"', '"']
        } else {
            seq!['"'] + string_text + seq!['"']
        },
        ValueKind::Slice | ValueKind::Array => "[...]"@,
        ValueKind::MapKind => "map[...]"@,
        ValueKind::Struct => "{...}"@,
        ValueKind::Pointer => "0x"@ + strbuf::radix_digits(val as nat, 16),
        ValueKind::Interface => "<interface>"@,
        ValueKind::Channel => "<chan>"@,
        ValueKind::Closure | ValueKind::FuncPtr => "<func>"@,
        _ => Seq::empty(),
    }
}

/// The text of a value of a kind other than a floating-point kind; for a non-nil
/// string, `string_text` is the text of the string.
pub fn format_value(val: u64, kind: ValueKind, string_text: &str) -> (r: String)
    requires
        !is_float_kind(kind),
    ensures
        r@ == value_text(val, kind, string_text@),
{
    let mut out = String::new();
    match kind {
        ValueKind::Void => push_str(&mut out, "nil"),
        ValueKind::Bool => {
            if val != 0 {
                push_str(&mut out, "true")
            } else {
                push_str(&mut out, "false")
            }
        },
        ValueKind::Int | ValueKind::Int64 => push_decimal_i64(&mut out, val as i64),
        ValueKind::Int8 => push_decimal_i64(&mut out, (val as i8) as i64),
        ValueKind::Int16 => push_decimal_i64(&mut out, (val as i16) as i64),
        ValueKind::Int32 => push_decimal_i64(&mut out, (val as i32) as i64),
        ValueKind::Uint | ValueKind::Uint64 => push_radix(&mut out, val, 10),
        ValueKind::Uint8 => push_radix(&mut out, (val as u8) as u64, 10),
        ValueKind::Uint16 => push_radix(&mut out, (val as u16) as u64, 10),
        ValueKind::Uint32 => push_radix(&mut out, (val as u32) as u64, 10),
        ValueKind::String => {
            push_char(&mut out, '"');
            if val != 0 {
                push_str(&mut out, string_text);
            }
            push_char(&mut out, '"');
        },
        ValueKind::Slice | ValueKind::Array => push_str(&mut out, "[...]"),
        ValueKind::MapKind => push_str(&mut out, "map[...]"),
        ValueKind::Struct => push_str(&mut out, "{...}"),
        ValueKind::Pointer => {
            push_str(&mut out, "0x");
            push_radix(&mut out, val, 16);
        },
        ValueKind::Interface => push_str(&mut out, "<interface>"),
        ValueKind::Channel => push_str(&mut out, "<chan>"),
        ValueKind::Closure | ValueKind::FuncPtr => push_str(&mut out, "<func>"),
        _ => {},
    }
    out
}

// ==================== Reading printed integers back ====================

proof fn lemma_digit_char_value(d: int)
    requires
        0 <= d < 16,
    ensures
        d < 10 ==> '0' <= strbuf::digit_char(d) <= '9',
        vo_const::digit_value(strbuf::digit_char(d)) == d,
{
    assert(strbuf::digit_char(d) == seq!['0', '1', '2', '3', '4', '5', '6', '7', '8', '9', 'a', 'b', 'c', 'd', 'e', 'f'][d]);
    if d < 8 {
        if d < 4 {
            if d < 2 { if d == 0 {} else {} } else { if d == 2 {} else {} }
        } else {
            if d < 6 { if d == 4 {} else {} } else { if d == 6 {} else {} }
        }
    } else {
        if d < 12 {
            if d < 10 { if d == 8 {} else {} } else { if d == 10 {} else {} }
        } else {
            if d < 14 { if d == 12 {} else {} } else { if d == 14 {} else {} }
        }
    }
}

/// The hexadecimal digits of `n` read back as `n`.
proof fn lemma_hex_reads_back(n: nat)
    ensures
        strbuf::radix_digits(n, 16).len() > 0,
        vo_const::all_digits_below(strbuf::radix_digits(n, 16), 16),
        vo_const::digits_value(strbuf::radix_digits(n, 16), 16) == n,
    decreases n,
{
    let s = strbuf::radix_digits(n, 16);
    if n < 16 {
        lemma_digit_char_value(n as int);
        assert(s.drop_last() =~= Seq::<char>::empty());
        assert(vo_const::digits_value(Seq::<char>::empty(), 16) == 0);
        assert(s.last() == strbuf::digit_char(n as int));
        assert(vo_const::digits_value(s, 16) == vo_const::digits_value(s.drop_last(), 16) * 16
            + vo_const::digit_value(s.last()));
    } else {
        let q = (n / 16) as nat;
        let d = (n % 16) as int;
        lemma_hex_reads_back(q);
        lemma_digit_char_value(d);
        let p = strbuf::radix_digits(q, 16);
        assert(s == p.push(strbuf::digit_char(d)));
        assert(s.drop_last() =~= p);
        assert(vo_const::digits_value(s, 16) == vo_const::digits_value(p, 16) * 16 + d);
        assert(q * 16 + d == n);
        assert forall|k: int| 0 <= k < s.len() implies vo_const::digit_value(#[trigger] s[k]) < 16 by {
            if k < p.len() {
                assert(s[k] == p[k]);
            }
        }
    }
}

/// The decimal digits of `n` are ASCII digits, at least one, and read back as `n`.
proof fn lemma_decimal_reads_back(n: nat)
    ensures
        strbuf::radix_digits(n, 10).len() > 0,
        forall|k: int| 0 <= k < strbuf::radix_digits(n, 10).len()
            ==> '0' <= #[trigger] strbuf::radix_digits(n, 10)[k] <= '9',
        vo_const::all_digits_below(strbuf::radix_digits(n, 10), 10),
        vo_const::digits_value(strbuf::radix_digits(n, 10), 10) == n,
    decreases n,
{
    let s = strbuf::radix_digits(n, 10);
    if n < 10 {
        lemma_digit_char_value(n as int);
        assert(s.drop_last() =~= Seq::<char>::empty());
        assert(vo_const::digits_value(Seq::<char>::empty(), 10) == 0);
        assert(s.last() == strbuf::digit_char(n as int));
        assert(vo_const::digits_value(s, 10) == vo_const::digits_value(s.drop_last(), 10) * 10
            + vo_const::digit_value(s.last()));
    } else {
        let q = (n / 10) as nat;
        let d = (n % 10) as int;
        lemma_decimal_reads_back(q);
        lemma_digit_char_value(d);
        let p = strbuf::radix_digits(q, 10);
        assert(s == p.push(strbuf::digit_char(d)));
        assert(s.drop_last() =~= p);
        assert(vo_const::digits_value(s, 10) == vo_const::digits_value(p, 10) * 10 + d);
        assert(q * 10 + d == n);
        assert forall|k: int| 0 <= k < s.len() implies '0' <= #[trigger] s[k] <= '9' by {
            if k < p.len() {
                assert(s[k] == p[k]);
            }
        }
    }
}

/// The decimal text of an integer, sign included, reads back as that integer.
proof fn lemma_signed_decimal_reads_back(i: int)
    requires
        i64::MIN <= i <= i64::MAX,
    ensures
        vo_const::parse_int_spec(strbuf::signed_decimal(i), 10) == Some(i as i64),
{
    let s = strbuf::signed_decimal(i);
    if i < 0 {
        let d = strbuf::radix_digits((-i) as nat, 10);
        lemma_decimal_reads_back((-i) as nat);
        assert(s[0] == '-');
        assert(vo_const::int_digits(s) =~= d);
    } else {
        lemma_decimal_reads_back(i as nat);
        assert('0' <= s[0] <= '9');
        assert(vo_const::int_digits(s) == s);
    }
}

/// A signed integer prints as the decimal text of its value, read with the kind's
/// width: read back as an integer, the text gives the slot value taken as `i64`
/// (`int`, `int64`), `i8`, `i16` or `i32`.
pub proof fn lemma_signed_text_reads_back(val: u64, string_text: Seq<char>)
    ensures
        vo_const::parse_int_spec(value_text(val, ValueKind::Int, string_text), 10) == Some(val as i64),
        vo_const::parse_int_spec(value_text(val, ValueKind::Int64, string_text), 10) == Some(val as i64),
        vo_const::parse_int_spec(value_text(val, ValueKind::Int8, string_text), 10) == Some((val as i8) as i64),
        vo_const::parse_int_spec(value_text(val, ValueKind::Int16, string_text), 10) == Some((val as i16) as i64),
        vo_const::parse_int_spec(value_text(val, ValueKind::Int32, string_text), 10) == Some((val as i32) as i64),
{
    lemma_signed_decimal_reads_back((val as i64) as int);
    lemma_signed_decimal_reads_back((val as i8) as int);
    lemma_signed_decimal_reads_back((val as i16) as int);
    lemma_signed_decimal_reads_back((val as i32) as int);
}

/// An unsigned integer prints as decimal digits only, which read back as the slot
/// value taken as `u64` (`uint`, `uint64`), `u8`, `u16` or `u32`.
pub proof fn lemma_unsigned_text_reads_back(val: u64, string_text: Seq<char>)
    ensures
        vo_const::all_digits_below(value_text(val, ValueKind::Uint, string_text), 10),
        vo_const::digits_value(value_text(val, ValueKind::Uint, string_text), 10) == val,
        vo_const::all_digits_below(value_text(val, ValueKind::Uint64, string_text), 10),
        vo_const::digits_value(value_text(val, ValueKind::Uint64, string_text), 10) == val,
        vo_const::all_digits_below(value_text(val, ValueKind::Uint8, string_text), 10),
        vo_const::digits_value(value_text(val, ValueKind::Uint8, string_text), 10) == val as u8,
        vo_const::all_digits_below(value_text(val, ValueKind::Uint16, string_text), 10),
        vo_const::digits_value(value_text(val, ValueKind::Uint16, string_text), 10) == val as u16,
        vo_const::all_digits_below(value_text(val, ValueKind::Uint32, string_text), 10),
        vo_const::digits_value(value_text(val, ValueKind::Uint32, string_text), 10) == val as u32,
{
    lemma_decimal_reads_back(val as nat);
    lemma_decimal_reads_back((val as u8) as nat);
    lemma_decimal_reads_back((val as u16) as nat);
    lemma_decimal_reads_back((val as u32) as nat);
}

/// A pointer prints as `0x` and hexadecimal digits that read back as its address.
pub proof fn lemma_pointer_text_reads_back(val: u64, string_text: Seq<char>)
    ensures
        value_text(val, ValueKind::Pointer, string_text).subrange(0, 2) == "0x"@,
        vo_const::all_digits_below(value_text(val, ValueKind::Pointer, string_text).subrange(
            2, value_text(val, ValueKind::Pointer, string_text).len() as int), 16),
        vo_const::digits_value(value_text(val, ValueKind::Pointer, string_text).subrange(
            2, value_text(val, ValueKind::Pointer, string_text).len() as int), 16) == val,
{
    reveal_strlit("0x");
    let t = value_text(val, ValueKind::Pointer, string_text);
    lemma_hex_reads_back(val as nat);
    assert(t.subrange(0, 2) =~= "0x"@);
    assert(t.subrange(2, t.len() as int) =~= strbuf::radix_digits(val as nat, 16));
}

// ==================== Output buffer ====================

/// Printed text waiting to be taken.
pub struct OutputBuffer {
    buf: String,
}

impl OutputBuffer {
    /// The text printed since it was last taken or cleared.
    pub closed spec fn view(&self) -> Seq<char> {
        self.buf@
    }

    /// An empty buffer.
    pub fn new() -> (r: Self)
        ensures
            r@ == Seq::<char>::empty(),
    {
        OutputBuffer { buf: String::new() }
    }
}

/// Print `s`.
pub fn write(out: &mut OutputBuffer, s: &str)
    ensures
        final(out)@ == old(out)@ + s@,
{
    push_str(&mut out.buf, s);
}

/// Print `s` and a newline.
pub fn writeln(out: &mut OutputBuffer, s: &str)
    ensures
        final(out)@ == old(out)@ + s@ + seq!['\n'],
{
    push_str(&mut out.buf, s);
    push_char(&mut out.buf, '\n');
}

/// Take the printed text, leaving the buffer empty.
pub fn take_output(out: &mut OutputBuffer) -> (r: String)
    ensures
        r@ == old(out)@,
        final(out)@ == Seq::<char>::empty(),
{
    let mut taken = String::new();
    std::mem::swap(&mut taken, &mut out.buf);
    taken
}

/// Drop the printed text.
pub fn clear_output(out: &mut OutputBuffer)
    ensures
        final(out)@ == Seq::<char>::empty(),
{
    out.buf = String::new();
}

/// Taking the output gives back what was printed since the buffer was last taken or
/// cleared, in order: after a `write` of `a` and a `writeln` of `l` on an emptied
/// buffer, the buffer holds `a`, `l` and a newline.
pub proof fn lemma_take_gives_writes(b0: Seq<char>, b1: Seq<char>, b2: Seq<char>, a: Seq<char>, l: Seq<char>)
    requires
        b0 == Seq::<char>::empty(),
        b1 == b0 + a,
        b2 == b1 + l + seq!['\n'],
    ensures
        b2 == a + l + seq!['\n'],
{
    assert(b0 + a =~= a);
}

// ==================== Source provider ====================

/// Access to source files for error messages; a source that is not available makes
/// the messages fall back to `file:line:col`.
pub trait SourceProvider {
    /// The content of the file at `path`, if available.
    fn read_source(&self, path: &str) -> (r: Option<String>)
        default_ensures
            r is None,
    {
        None
    }
}

/// A source provider with no sources.
pub struct NoSource;

impl SourceProvider for NoSource {}

} // verus!
