//! Evaluation of integer constants declared in Vo source text, such as
//! `const O_APPEND int = 1 << 3` or the entries of a `const ( ... )` block.

use vstd::prelude::*;
use crate::text::{self, chars_of, Outcome};
use vstd::string::StrSliceExecFns;

verus! {

broadcast use vstd::string::group_string_axioms;

// ==================== Specification ====================

/// State of the scan for a top-level operator: position, parenthesis depth, inside a
/// character literal, and whether the previous character in it was an escaping backslash.
/// Returns the position of the first `op` at depth 0 outside character literals.
pub open spec fn split_scan(s: Seq<char>, op: char, i: int, depth: int, in_char: bool, prev_bs: bool) -> Option<int>
    decreases s.len() - i,
{
    if i < 0 || i >= s.len() {
        None
    } else {
        let c = s[i];
        if in_char {
            let still = !(c == '\'' && !prev_bs);
            split_scan(s, op, i + 1, depth, still, c == '\\' && !prev_bs)
        } else if c == '\'' {
            split_scan(s, op, i + 1, depth, true, prev_bs)
        } else if c == '(' {
            split_scan(s, op, i + 1, depth + 1, in_char, prev_bs)
        } else if c == ')' {
            split_scan(s, op, i + 1, depth - 1, in_char, prev_bs)
        } else if c == op && depth == 0 {
            Some(i)
        } else {
            split_scan(s, op, i + 1, depth, in_char, prev_bs)
        }
    }
}

/// Position of the last character at or before `k` that is not white space (or 0).
pub open spec fn prev_nonws(s: Seq<char>, k: int) -> int
    decreases k,
{
    if k > 0 && k < s.len() && text::is_ws(s[k]) { prev_nonws(s, k - 1) } else { k }
}

/// Whether `op` at `i` is a binary operator: its nearest non-white-space predecessor
/// is a digit, `)` or `'`.
pub open spec fn binary_minus_at(s: Seq<char>, i: int) -> bool {
    let p = prev_nonws(s, i - 1);
    0 <= p < s.len() && (text::is_digit(s[p]) || s[p] == ')' || s[p] == '\'')
}

/// Like `split_scan`, but an `op` only counts when it is not at the start and follows
/// a digit, `)` or `'` (so that `-` of a negative number is not split on).
pub open spec fn split_scan_careful(s: Seq<char>, op: char, i: int, depth: int, in_char: bool, prev_bs: bool) -> Option<int>
    decreases s.len() - i,
{
    if i < 0 || i >= s.len() {
        None
    } else {
        let c = s[i];
        if in_char {
            let still = !(c == '\'' && !prev_bs);
            split_scan_careful(s, op, i + 1, depth, still, c == '\\' && !prev_bs)
        } else if c == '\'' {
            split_scan_careful(s, op, i + 1, depth, true, prev_bs)
        } else if c == '(' {
            split_scan_careful(s, op, i + 1, depth + 1, in_char, prev_bs)
        } else if c == ')' {
            split_scan_careful(s, op, i + 1, depth - 1, in_char, prev_bs)
        } else if c == op && depth == 0 && i > 0 && binary_minus_at(s, i) {
            Some(i)
        } else {
            split_scan_careful(s, op, i + 1, depth, in_char, prev_bs)
        }
    }
}

/// The value of a character literal such as `'x'`, `'\n'` or `'\\'`.
pub open spec fn char_lit_spec(s: Seq<char>) -> Option<i64> {
    if !(s.len() >= 3 && s[0] == '\'' && s.last() == '\'') {
        None
    } else {
        let inner = s.subrange(1, s.len() - 1);
        if inner.len() > 0 && inner[0] == '\\' {
            if inner == seq!['\\', 'n'] {
                Some(10)
            } else if inner == seq!['\\', 't'] {
                Some(9)
            } else if inner == seq!['\\', 'r'] {
                Some(13)
            } else if inner == seq!['\\', '\\'] {
                Some(92)
            } else if inner == seq!['\\', '\''] {
                Some(39)
            } else if inner == seq!['\\', '"'] {
                Some(34)
            } else if inner == seq!['\\', '0'] {
                Some(0)
            } else {
                None
            }
        } else if inner.len() == 1 && (inner[0] as u32) < 128 {
            Some(inner[0] as i64)
        } else {
            None
        }
    }
}

/// Value of a digit character in bases up to 36.
pub open spec fn digit_value(c: char) -> int {
    if '0' <= c && c <= '9' {
        c as int - '0' as int
    } else if 'a' <= c && c <= 'z' {
        c as int - 'a' as int + 10
    } else if 'A' <= c && c <= 'Z' {
        c as int - 'A' as int + 10
    } else {
        99
    }
}

/// Value of a digit string.
pub open spec fn digits_value(s: Seq<char>, radix: int) -> int
    decreases s.len(),
{
    if s.len() == 0 { 0 } else { digits_value(s.drop_last(), radix) * radix + digit_value(s.last()) }
}

/// The digits of an integer literal: without a leading sign.
pub open spec fn int_digits(s: Seq<char>) -> Seq<char> {
    if s.len() > 0 && (s[0] == '+' || s[0] == '-') { s.drop_first() } else { s }
}

/// All characters are digits of the radix.
pub open spec fn all_digits_below(d: Seq<char>, radix: int) -> bool {
    forall|k: int| 0 <= k < d.len() ==> digit_value(#[trigger] d[k]) < radix
}

/// Integer parsing as `i64::from_str_radix`: an optional `+` or `-`, then at least one
/// digit of the radix; `None` when malformed or out of the range of `i64`.
pub open spec fn parse_int_spec(s: Seq<char>, radix: int) -> Option<i64> {
    if s.len() == 0 {
        None
    } else {
        let neg = s[0] == '-';
        let digits = int_digits(s);
        if digits.len() == 0 || !all_digits_below(digits, radix) {
            None
        } else {
            let v = if neg { -digits_value(digits, radix) } else { digits_value(digits, radix) };
            if i64::MIN <= v <= i64::MAX { Some(v as i64) } else { None }
        }
    }
}

/// Binary operators of constant expressions.
#[derive(Clone, Copy)]
pub enum BinOp {
    Or,
    And,
    Shl,
    Shr,
    Add,
    Sub,
    Mul,
    Div,
}

/// Quotient rounded toward zero, as integer division does.
pub open spec fn trunc_div(x: int, d: int) -> int {
    if x == 0 {
        0
    } else if x > 0 && d > 0 {
        x / d
    } else if x < 0 && d < 0 {
        (x * -1) / (d * -1)
    } else if x < 0 {
        ((x * -1) / d) * -1
    } else {
        (x / (d * -1)) * -1
    }
}

/// Applying an operator: division by zero gives no value; an overflow, or a shift by a
/// negative amount or by 64 or more, is a panic of the evaluation.
pub open spec fn apply_op(op: BinOp, a: i64, b: i64) -> Outcome<i64> {
    match op {
        BinOp::Or => Outcome::Value(a | b),
        BinOp::And => Outcome::Value(a & b),
        BinOp::Shl => if 0 <= b < 64 { Outcome::Value(a << (b as u64)) } else { Outcome::Aborts },
        BinOp::Shr => if 0 <= b < 64 { Outcome::Value(a >> (b as u64)) } else { Outcome::Aborts },
        BinOp::Add => if i64::MIN <= a + b <= i64::MAX { Outcome::Value((a + b) as i64) } else { Outcome::Aborts },
        BinOp::Sub => if i64::MIN <= a - b <= i64::MAX { Outcome::Value((a - b) as i64) } else { Outcome::Aborts },
        BinOp::Mul => if i64::MIN <= a * b <= i64::MAX { Outcome::Value((a * b) as i64) } else { Outcome::Aborts },
        BinOp::Div => if b == 0 {
            Outcome::Absent
        } else if a == i64::MIN && b == -1 {
            Outcome::Aborts
        } else {
            Outcome::Value(trunc_div(a as int, b as int) as i64)
        },
    }
}

/// Combine the evaluations of two operands: the left one first, stopping at the first
/// operand that has no value or panics.
pub open spec fn combine(l: Outcome<i64>, r: Outcome<i64>, op: BinOp) -> Outcome<i64> {
    match l {
        Outcome::Aborts => Outcome::Aborts,
        Outcome::Absent => Outcome::Absent,
        Outcome::Value(a) => match r {
            Outcome::Aborts => Outcome::Aborts,
            Outcome::Absent => Outcome::Absent,
            Outcome::Value(b) => apply_op(op, a, b),
        },
    }
}

/// An `Option` as an outcome.
pub open spec fn of_option(o: Option<i64>) -> Outcome<i64> {
    match o {
        Some(v) => Outcome::Value(v),
        None => Outcome::Absent,
    }
}

/// Value of a constant expression. In order of precedence of the checks: parentheses
/// around the whole expression, `|`, `&`, `<<`, `>>`, `+`, binary `-`, `*`, `/` (each at
/// the first top-level occurrence), unary `-`, character literal, `0x`/`0o`/`0b`
/// literals, and decimal literals.
pub open spec fn eval_spec(e0: Seq<char>) -> Outcome<i64>
    decreases e0.len(), 2int,
{
    let e = text::trim(e0);
    if e.len() > e0.len() || e.len() == 0 {
        Outcome::Absent
    } else if e[0] == '(' && e.last() == ')' {
        if e.len() >= 2 { eval_spec(e.subrange(1, e.len() - 1)) } else { Outcome::Absent }
    } else {
        match split_scan(e, '|', 0, 0, false, false) {
            Some(i) => if 0 <= i < e.len() {
                combine(eval_spec(e.subrange(0, i)), eval_spec(e.subrange(i + 1, e.len() as int)), BinOp::Or)
            } else { Outcome::Absent },
            None => match split_scan(e, '&', 0, 0, false, false) {
                Some(i) => if 0 <= i < e.len() {
                    combine(eval_spec(e.subrange(0, i)), eval_spec(e.subrange(i + 1, e.len() as int)), BinOp::And)
                } else { Outcome::Absent },
                None => match text::find_seq(e, seq!['<', '<']) {
                    Some(i) => if 0 <= i && i + 2 <= e.len() {
                        combine(eval_spec(e.subrange(0, i)), eval_spec(e.subrange(i + 2, e.len() as int)), BinOp::Shl)
                    } else { Outcome::Absent },
                    None => match text::find_seq(e, seq!['>', '>']) {
                        Some(i) => if 0 <= i && i + 2 <= e.len() {
                            combine(eval_spec(e.subrange(0, i)), eval_spec(e.subrange(i + 2, e.len() as int)), BinOp::Shr)
                        } else { Outcome::Absent },
                        None => eval_arith(e),
                    },
                },
            },
        }
    }
}

/// The rest of `eval_spec`, from `+` on, for a trimmed non-empty expression.
pub open spec fn eval_arith(e: Seq<char>) -> Outcome<i64>
    decreases e.len(), 1int,
{
    match split_scan(e, '+', 0, 0, false, false) {
        Some(i) => if 0 <= i < e.len() {
            combine(eval_spec(e.subrange(0, i)), eval_spec(e.subrange(i + 1, e.len() as int)), BinOp::Add)
        } else { Outcome::Absent },
        None => match split_scan_careful(e, '-', 0, 0, false, false) {
            Some(i) => if 0 <= i < e.len() {
                combine(eval_spec(e.subrange(0, i)), eval_spec(e.subrange(i + 1, e.len() as int)), BinOp::Sub)
            } else { Outcome::Absent },
            None => match split_scan(e, '*', 0, 0, false, false) {
                Some(i) => if 0 <= i < e.len() {
                    combine(eval_spec(e.subrange(0, i)), eval_spec(e.subrange(i + 1, e.len() as int)), BinOp::Mul)
                } else { Outcome::Absent },
                None => match split_scan(e, '/', 0, 0, false, false) {
                    Some(i) => if 0 <= i < e.len() {
                        combine(eval_spec(e.subrange(0, i)), eval_spec(e.subrange(i + 1, e.len() as int)), BinOp::Div)
                    } else { Outcome::Absent },
                    None => eval_atom(e),
                },
            },
        },
    }
}

/// Unary minus and literals, for a trimmed non-empty expression without operators.
pub open spec fn eval_atom(e: Seq<char>) -> Outcome<i64>
    decreases e.len(), 0int,
{
    if e.len() > 0 && e[0] == '-' {
        match eval_spec(e.drop_first()) {
            Outcome::Value(v) => if v == i64::MIN { Outcome::Aborts } else { Outcome::Value((-v) as i64) },
            other => other,
        }
    } else if e.len() > 0 && e[0] == '\'' && e.last() == '\'' {
        of_option(char_lit_spec(e))
    } else if e.len() >= 2 && e[0] == '0' && (e[1] == 'x' || e[1] == 'X') {
        of_option(parse_int_spec(e.subrange(2, e.len() as int), 16))
    } else if e.len() >= 2 && e[0] == '0' && (e[1] == 'o' || e[1] == 'O') {
        of_option(parse_int_spec(e.subrange(2, e.len() as int), 8))
    } else if e.len() >= 2 && e[0] == '0' && (e[1] == 'b' || e[1] == 'B') {
        of_option(parse_int_spec(e.subrange(2, e.len() as int), 2))
    } else {
        of_option(parse_int_spec(e, 10))
    }
}

/// Value assigned to `const_name` by one declaration line: `Name = value`,
/// `Name type = value`, with an optional trailing `//` comment.
pub open spec fn assign_spec(line: Seq<char>, const_name: Seq<char>) -> Outcome<i64> {
    let piece = match text::find_seq(line, seq!['/', '/']) {
        Some(i) => if 0 <= i <= line.len() { line.subrange(0, i) } else { line },
        None => line,
    };
    let l = text::trim(piece);
    match text::find_char(l, '=') {
        None => Outcome::Absent,
        Some(k) => {
            if !(0 <= k < l.len()) {
                Outcome::Absent
            } else {
                let ws = text::split_ws(text::trim(l.subrange(0, k)));
                if ws.len() == 0 || ws[0] != const_name {
                    Outcome::Absent
                } else {
                    eval_spec(text::trim(l.subrange(k + 1, l.len() as int)))
                }
            }
        },
    }
}

/// Effect of one trimmed line on the scan: the new block state, and the value found
/// (`Absent` to go on with the next line).
#[verifier::opaque]
pub open spec fn line_step(t: Seq<char>, const_name: Seq<char>, in_block: bool) -> (bool, Outcome<i64>) {
    if t == "const ("@ {
        (true, Outcome::Absent)
    } else if in_block && t == seq![')'] {
        (false, Outcome::Absent)
    } else if text::starts_with(t, "const "@) {
        let rest = t.subrange(6, t.len() as int);
        if rest.len() > 0 && rest[0] == '(' {
            (in_block, Outcome::Absent)
        } else {
            (in_block, assign_spec(rest, const_name))
        }
    } else if in_block {
        (in_block, assign_spec(t, const_name))
    } else {
        (in_block, Outcome::Absent)
    }
}

/// Scan of the lines from `i` on for the value of `const_name`, inside a `const ( ... )`
/// block or not.
pub open spec fn const_scan(ls: Seq<Seq<char>>, const_name: Seq<char>, i: int, in_block: bool) -> Outcome<i64>
    decreases ls.len() - i,
{
    if i < 0 || i >= ls.len() {
        Outcome::Absent
    } else {
        match line_step(text::trim(ls[i]), const_name, in_block) {
            (b, Outcome::Absent) => const_scan(ls, const_name, i + 1, b),
            (_, other) => other,
        }
    }
}

/// The value of `const_name` declared in a source text.
pub open spec fn const_value_spec(source: Seq<char>, const_name: Seq<char>) -> Outcome<i64> {
    const_scan(text::lines(source), const_name, 0, false)
}

// ==================== Executable evaluation ====================

/// Position (in `cs`) of the first `op` in `cs[lo..hi]` at depth 0 outside character
/// literals, with the careful rule for `-` when `careful` is set.
fn scan_in(cs: &[char], lo: usize, hi: usize, op: char, careful: bool) -> (r: Option<usize>)
    requires
        lo <= hi <= cs@.len(),
        hi - lo < 0x4000_0000_0000_0000,
    ensures
        ({
            let s = cs@.subrange(lo as int, hi as int);
            let spec_r = if careful { split_scan_careful(s, op, 0, 0, false, false) } else { split_scan(s, op, 0, 0, false, false) };
            match r {
                Some(k) => lo <= k < hi && spec_r == Some(k - lo),
                None => spec_r is None,
            }
        }),
{
    let ghost s = cs@.subrange(lo as int, hi as int);
    let ghost target = if careful { split_scan_careful(s, op, 0, 0, false, false) } else { split_scan(s, op, 0, 0, false, false) };
    let mut i = lo;
    let mut depth: i64 = 0;
    let mut in_char = false;
    let mut prev_bs = false;
    while i < hi
        invariant
            lo <= i <= hi <= cs@.len(),
            hi - lo < 0x4000_0000_0000_0000,
            s == cs@.subrange(lo as int, hi as int),
            -(i - lo) <= depth <= i - lo,
            target == if careful {
                split_scan_careful(s, op, i - lo, depth as int, in_char, prev_bs)
            } else {
                split_scan(s, op, i - lo, depth as int, in_char, prev_bs)
            },
            target == if careful { split_scan_careful(s, op, 0, 0, false, false) } else { split_scan(s, op, 0, 0, false, false) },
        decreases hi - i,
    {
        let c = cs[i];
        assert(s[i - lo] == c);
        if in_char {
            if c == '\'' && !prev_bs {
                in_char = false;
            }
            prev_bs = c == '\\' && !prev_bs;
        } else if c == '\'' {
            in_char = true;
        } else if c == '(' {
            depth = depth + 1;
        } else if c == ')' {
            depth = depth - 1;
        } else if c == op && depth == 0 {
            if !careful {
                return Some(i);
            }
            if i > lo {
                let p = prev_nonws_in(cs, lo, hi, i - 1);
                if text::is_digit_char(cs[p]) || cs[p] == ')' || cs[p] == '\'' {
                    assert(binary_minus_at(s, i - lo));
                    return Some(i);
                }
                assert(!binary_minus_at(s, i - lo));
            }
        }
        i = i + 1;
    }
    None
}

/// Position of the last character at or before `k` that is not white space, stopping
/// at `lo`.
fn prev_nonws_in(cs: &[char], lo: usize, hi: usize, k: usize) -> (r: usize)
    requires
        lo <= k < hi <= cs@.len(),
    ensures
        lo <= r <= k,
        r - lo == prev_nonws(cs@.subrange(lo as int, hi as int), k - lo),
{
    let ghost s = cs@.subrange(lo as int, hi as int);
    let mut p = k;
    while p > lo && text::is_whitespace(cs[p])
        invariant
            lo <= p <= k < hi <= cs@.len(),
            s == cs@.subrange(lo as int, hi as int),
            prev_nonws(s, k - lo) == prev_nonws(s, p - lo),
        decreases p,
    {
        assert(s[p - lo] == cs@[p as int]);
        p = p - 1;
    }
    if p > lo {
        assert(s[p - lo] == cs@[p as int]);
    }
    p
}

/// Value of the character literal `cs[lo..hi]`.
fn char_lit_in(cs: &[char], lo: usize, hi: usize) -> (r: Option<i64>)
    requires
        lo <= hi <= cs@.len(),
    ensures
        r == char_lit_spec(cs@.subrange(lo as int, hi as int)),
{
    let ghost s = cs@.subrange(lo as int, hi as int);
    if !(hi - lo >= 3 && cs[lo] == '\'' && cs[hi - 1] == '\'') {
        return None;
    }
    let a = lo + 1;
    let b = hi - 1;
    let ghost inner = s.subrange(1, s.len() - 1);
    assert(inner == cs@.subrange(a as int, b as int));
    if cs[a] == '\\' {
        if b - a == 2 {
            let e = cs[a + 1];
            assert(inner =~= seq!['\\', e]);
            if e == 'n' {
                Some(10)
            } else if e == 't' {
                Some(9)
            } else if e == 'r' {
                Some(13)
            } else if e == '\\' {
                Some(92)
            } else if e == '\'' {
                Some(39)
            } else if e == '"' {
                Some(34)
            } else if e == '0' {
                Some(0)
            } else {
                None
            }
        } else {
            assert(inner.len() != 2);
            None
        }
    } else if b - a == 1 && (cs[a] as u32) < 128 {
        Some(cs[a] as i64)
    } else {
        None
    }
}

/// The value of a character literal such as `'x'`, `'\n'` or `'\\'`.
pub fn parse_char_literal(s: &str) -> (r: Option<i64>)
    ensures
        r == char_lit_spec(s@),
{
    let cs = chars_of(s);
    assert(cs@.subrange(0, cs@.len() as int) == s@);
    char_lit_in(cs.as_slice(), 0, cs.len())
}

/// Value of a digit character (99 for a non-digit).
fn digit_of(c: char) -> (r: u32)
    ensures
        r == digit_value(c),
{
    if '0' <= c && c <= '9' {
        (c as u32) - ('0' as u32)
    } else if 'a' <= c && c <= 'z' {
        (c as u32) - ('a' as u32) + 10
    } else if 'A' <= c && c <= 'Z' {
        (c as u32) - ('A' as u32) + 10
    } else {
        99
    }
}

proof fn lemma_digits_value_mono(s: Seq<char>, radix: int, k: int)
    requires
        radix >= 1,
        0 <= k <= s.len(),
        forall|j: int| 0 <= j < s.len() ==> 0 <= digit_value(#[trigger] s[j]) < radix,
    ensures
        digits_value(s.subrange(0, k), radix) <= digits_value(s, radix),
        0 <= digits_value(s.subrange(0, k), radix),
    decreases s.len() - k,
{
    if k < s.len() {
        lemma_digits_value_mono(s, radix, k + 1);
        let t = s.subrange(0, k + 1);
        assert(t.drop_last() == s.subrange(0, k));
        let a = digits_value(s.subrange(0, k), radix);
        assert(digits_value(t, radix) == a * radix + digit_value(t.last()));
        let pre = s.subrange(0, k);
        assert forall|j: int| 0 <= j < pre.len() implies 0 <= digit_value(#[trigger] pre[j]) < radix by {
            assert(pre[j] == s[j]);
        }
        lemma_digits_value_nonneg(pre, radix);
        assert(a * radix >= a) by (nonlinear_arith)
            requires
                a >= 0,
                radix >= 1,
        ;
    } else {
        assert(s.subrange(0, k) == s);
        lemma_digits_value_nonneg(s, radix);
    }
}

proof fn lemma_digits_value_nonneg(s: Seq<char>, radix: int)
    requires
        radix >= 1,
        forall|j: int| 0 <= j < s.len() ==> 0 <= digit_value(#[trigger] s[j]) < radix,
    ensures
        0 <= digits_value(s, radix),
    decreases s.len(),
{
    if s.len() > 0 {
        let t = s.drop_last();
        assert forall|j: int| 0 <= j < t.len() implies 0 <= digit_value(#[trigger] t[j]) < radix by {
            assert(t[j] == s[j]);
        }
        lemma_digits_value_nonneg(t, radix);
        let a = digits_value(t, radix);
        assert(a * radix >= 0) by (nonlinear_arith)
            requires
                a >= 0,
                radix >= 1,
        ;
        assert(0 <= digit_value(s[s.len() - 1]));
    }
}

/// Parse `cs[lo..hi]` as an integer of the given radix, as `i64::from_str_radix`.
fn parse_int_in(cs: &[char], lo: usize, hi: usize, radix: u32) -> (r: Option<i64>)
    requires
        lo <= hi <= cs@.len(),
        2 <= radix <= 36,
    ensures
        r == parse_int_spec(cs@.subrange(lo as int, hi as int), radix as int),
{
    let ghost s = cs@.subrange(lo as int, hi as int);
    if lo == hi {
        return None;
    }
    let neg = cs[lo] == '-';
    let start = if cs[lo] == '+' || cs[lo] == '-' { lo + 1 } else { lo };
    let ghost digits = int_digits(s);
    assert(digits == cs@.subrange(start as int, hi as int));
    if start == hi {
        return None;
    }
    let mut k = start;
    while k < hi
        invariant
            lo <= start <= k <= hi <= cs@.len(),
            lo < hi,
            s == cs@.subrange(lo as int, hi as int),
            digits == int_digits(s),
            digits == cs@.subrange(start as int, hi as int),
            forall|j: int| start <= j < k ==> digit_value(#[trigger] cs@[j]) < radix,
        decreases hi - k,
    {
        if digit_of(cs[k]) >= radix {
            assert(digits[k - start] == cs@[k as int]);
            assert(digit_value(digits[k - start]) >= radix);
            assert(!all_digits_below(digits, radix as int));
            return None;
        }
        k = k + 1;
    }
    assert forall|j: int| 0 <= j < digits.len() implies 0 <= digit_value(#[trigger] digits[j]) < radix by {
        assert(digits[j] == cs@[start + j]);
        assert(digit_value(cs@[start + j]) >= 0);
    }
    let mut acc: u128 = 0;
    let mut k = start;
    while k < hi
        invariant
            lo <= start <= k <= hi <= cs@.len(),
            2 <= radix <= 36,
            lo < hi,
            s == cs@.subrange(lo as int, hi as int),
            digits == int_digits(s),
            digits == cs@.subrange(start as int, hi as int),
            forall|j: int| 0 <= j < digits.len() ==> 0 <= digit_value(#[trigger] digits[j]) < radix,
            acc == digits_value(digits.subrange(0, k - start), radix as int),
            acc <= 0x8000_0000_0000_0000,
        decreases hi - k,
    {
        let d = digit_of(cs[k]);
        assert(digits[k - start] == cs@[k as int]);
        let ghost pre = digits.subrange(0, k - start);
        let ghost nxt = digits.subrange(0, k - start + 1);
        assert(nxt.drop_last() == pre);
        assert(nxt.last() == digits[k - start]);
        assert(acc * (radix as u128) <= 0x8000_0000_0000_0000 * 36) by (nonlinear_arith)
            requires
                acc <= 0x8000_0000_0000_0000,
                radix <= 36,
        ;
        acc = acc * (radix as u128) + (d as u128);
        if acc > 0x8000_0000_0000_0000 {
            proof {
                lemma_digits_value_mono(digits, radix as int, k - start + 1);
                assert(all_digits_below(digits, radix as int));
                assert(digits_value(digits, radix as int) > 0x8000_0000_0000_0000);
            }
            return None;
        }
        k = k + 1;
    }
    assert(digits.subrange(0, digits.len() as int) == digits);
    if neg {
        let v: i128 = 0 - (acc as i128);
        Some(v as i64)
    } else if acc <= 0x7fff_ffff_ffff_ffff {
        Some(acc as i64)
    } else {
        None
    }
}

/// Parsing as `usize::from_str`: an optional `+`, then at least one decimal digit;
/// `None` when malformed or above `usize::MAX`.
pub open spec fn parse_usize_spec(s: Seq<char>) -> Option<usize> {
    let digits = if s.len() > 0 && s[0] == '+' { s.drop_first() } else { s };
    if digits.len() == 0 || !all_digits_below(digits, 10) {
        None
    } else if digits_value(digits, 10) <= usize::MAX {
        Some(digits_value(digits, 10) as usize)
    } else {
        None
    }
}

/// Parse `s` as `usize::from_str` does.
pub(crate) fn parse_usize(s: &str) -> (r: Option<usize>)
    ensures
        r == parse_usize_spec(s@),
{
    let cs = chars_of(s);
    let hi = cs.len();
    let start: usize = if hi > 0 && cs[0] == '+' { 1 } else { 0 };
    let ghost digits = if s@.len() > 0 && s@[0] == '+' { s@.drop_first() } else { s@ };
    assert(digits == cs@.subrange(start as int, hi as int));
    if start == hi {
        return None;
    }
    let mut k = start;
    while k < hi
        invariant
            start <= k <= hi == cs@.len(),
            cs@ == s@,
            digits == (if s@.len() > 0 && s@[0] == '+' { s@.drop_first() } else { s@ }),
            digits == cs@.subrange(start as int, hi as int),
            forall|j: int| start <= j < k ==> digit_value(#[trigger] cs@[j]) < 10,
        decreases hi - k,
    {
        if digit_of(cs[k]) >= 10 {
            assert(digits[k - start] == cs@[k as int]);
            assert(!all_digits_below(digits, 10));
            return None;
        }
        k = k + 1;
    }
    assert forall|j: int| 0 <= j < digits.len() implies 0 <= digit_value(#[trigger] digits[j]) < 10 by {
        assert(digits[j] == cs@[start + j]);
    }
    let mut acc: u128 = 0;
    let mut k = start;
    while k < hi
        invariant
            start <= k <= hi == cs@.len(),
            cs@ == s@,
            digits == (if s@.len() > 0 && s@[0] == '+' { s@.drop_first() } else { s@ }),
            digits == cs@.subrange(start as int, hi as int),
            forall|j: int| 0 <= j < digits.len() ==> 0 <= digit_value(#[trigger] digits[j]) < 10,
            acc == digits_value(digits.subrange(0, k - start), 10),
            acc <= usize::MAX,
        decreases hi - k,
    {
        let d = digit_of(cs[k]);
        assert(digits[k - start] == cs@[k as int]);
        let ghost pre = digits.subrange(0, k - start);
        let ghost nxt = digits.subrange(0, k - start + 1);
        assert(nxt.drop_last() == pre);
        assert(nxt.last() == digits[k - start]);
        assert(acc * 10 <= 0xffff_ffff_ffff_ffff * 10) by (nonlinear_arith)
            requires
                acc <= 0xffff_ffff_ffff_ffff,
        ;
        acc = acc * 10 + (d as u128);
        if acc > usize::MAX as u128 {
            proof {
                lemma_digits_value_mono(digits, 10, k - start + 1);
            }
            return None;
        }
        k = k + 1;
    }
    assert(digits.subrange(0, digits.len() as int) == digits);
    Some(acc as usize)
}

/// Bit `k` (0 the lowest) of the two's-complement form of `x`.
pub open spec fn bit_set(x: i64, k: u64) -> bool {
    ((x as u64) >> k) & 1u64 == 1u64
}

/// `a | b` sets exactly the bits set in `a` or in `b`.
pub proof fn lemma_or_bits(a: i64, b: i64, k: u64)
    requires
        k < 64,
    ensures
        apply_op(BinOp::Or, a, b) matches Outcome::Value(r) && (bit_set(r, k) <==> (bit_set(a, k) || bit_set(b, k))),
{
    let r = a | b;
    assert(((r as u64) >> k) & 1u64 == 1u64 <==> (((a as u64) >> k) & 1u64 == 1u64 || ((b as u64) >> k) & 1u64 == 1u64))
        by (bit_vector)
        requires
            r == a | b,
            k < 64,
    ;
}

/// `a & b` sets exactly the bits set in both `a` and `b`.
pub proof fn lemma_and_bits(a: i64, b: i64, k: u64)
    requires
        k < 64,
    ensures
        apply_op(BinOp::And, a, b) matches Outcome::Value(r) && (bit_set(r, k) <==> (bit_set(a, k) && bit_set(b, k))),
{
    let r = a & b;
    assert(((r as u64) >> k) & 1u64 == 1u64 <==> (((a as u64) >> k) & 1u64 == 1u64 && ((b as u64) >> k) & 1u64 == 1u64))
        by (bit_vector)
        requires
            r == a & b,
            k < 64,
    ;
}

/// `a << b` moves every bit up by `b` places and fills the low `b` bits with zeros.
pub proof fn lemma_shl_bits(a: i64, b: i64, k: u64)
    requires
        0 <= b < 64,
        k < 64,
    ensures
        apply_op(BinOp::Shl, a, b) matches Outcome::Value(r)
            && (bit_set(r, k) <==> (k >= b && bit_set(a, (k - b) as u64))),
{
    let r = a << (b as u64);
    let bu = b as u64;
    assert(((r as u64) >> k) & 1u64 == 1u64 <==> (k >= bu && ((a as u64) >> ((k - bu) as u64)) & 1u64 == 1u64))
        by (bit_vector)
        requires
            r == a << bu,
            bu < 64,
            k < 64,
    ;
}

/// `a >> b` moves every bit down by `b` places and fills the high bits with the sign.
pub proof fn lemma_shr_bits(a: i64, b: i64, k: u64)
    requires
        0 <= b < 64,
        k < 64,
    ensures
        apply_op(BinOp::Shr, a, b) matches Outcome::Value(r)
            && (bit_set(r, k) <==> (if k + b < 64 { bit_set(a, (k + b) as u64) } else { a < 0 })),
{
    let r = a >> (b as u64);
    let bu = b as u64;
    assert(((r as u64) >> k) & 1u64 == 1u64 <==> (if k + bu < 64 { ((a as u64) >> ((k + bu) as u64)) & 1u64 == 1u64 } else { a < 0 }))
        by (bit_vector)
        requires
            r == a >> bu,
            bu < 64,
            k < 64,
    ;
}

proof fn lemma_floor_div_parts(x: int, d: int)
    requires
        x >= 0,
        d > 0,
    ensures
        x == d * (x / d) + (x - d * (x / d)),
        0 <= x - d * (x / d) < d,
{
    vstd::arithmetic::div_mod::lemma_fundamental_div_mod(x, d);
    vstd::arithmetic::div_mod::lemma_mod_pos_bound(x, d);
}

/// Division rounds toward zero: the quotient `q` of `a / b` leaves a remainder
/// `a - q * b` smaller than `b` in size and never of the opposite sign to `a`.
pub proof fn lemma_div_truncates(a: i64, b: i64)
    requires
        b != 0,
        !(a == i64::MIN && b == -1),
    ensures
        apply_op(BinOp::Div, a, b) matches Outcome::Value(q) && ({
            let rem = a - q * b;
            &&& (if rem < 0 { -rem } else { rem }) < (if b < 0 { -(b as int) } else { b as int })
            &&& (rem == 0 || ((rem > 0) == (a > 0)))
        }),
{
    lemma_trunc_div_range(a, b);
    let x = a as int;
    let d = b as int;
    let q = trunc_div(x, d);
    if x == 0 {
    } else if x > 0 && d > 0 {
        lemma_floor_div_parts(x, d);
    } else if x < 0 && d < 0 {
        lemma_floor_div_parts(-x, -d);
        assert((x * -1) == -x && (d * -1) == -d);
        assert(x - q * d == -((-x) - (-d) * q)) by (nonlinear_arith);
    } else if x < 0 {
        lemma_floor_div_parts(-x, d);
        assert(x * -1 == -x);
        let p = (-x) / d;
        assert(q == p * -1);
        assert(x - q * d == -((-x) - d * p)) by (nonlinear_arith)
            requires
                q == p * -1,
        ;
    } else {
        lemma_floor_div_parts(x, -d);
        assert(d * -1 == -d);
        let p = x / (-d);
        assert(q == p * -1);
        assert(x - q * d == x - (-d) * p) by (nonlinear_arith)
            requires
                q == p * -1,
        ;
    }
}

/// Subtracting what was added gives the first operand back.
pub proof fn lemma_add_then_sub(a: i64, b: i64)
    requires
        apply_op(BinOp::Add, a, b) is Value,
    ensures
        apply_op(BinOp::Add, a, b) matches Outcome::Value(r) && apply_op(BinOp::Sub, r, b) == Outcome::Value(a),
{
}

/// Dividing a product by a non-zero factor gives the other factor back.
pub proof fn lemma_mul_then_div(a: i64, b: i64)
    requires
        b != 0,
        apply_op(BinOp::Mul, a, b) is Value,
    ensures
        apply_op(BinOp::Mul, a, b) matches Outcome::Value(r) && apply_op(BinOp::Div, r, b) == Outcome::Value(a),
{
    let r = (a * b) as i64;
    assert(r == a * b);
    if r == i64::MIN && b == -1 {
        assert(a * b == -a) by (nonlinear_arith)
            requires
                b == -1,
        ;
    }
    lemma_div_truncates(r, b);
    let q = trunc_div(r as int, b as int) as i64;
    let rem = r - q * b;
    assert(rem == (a - q) * b) by (nonlinear_arith)
        requires
            rem == r - q * b,
            r == a * b,
    ;
    if a != q {
        let bb: int = if b < 0 { -(b as int) } else { b as int };
        let rr: int = if rem < 0 { -rem } else { rem };
        assert(rr >= bb) by (nonlinear_arith)
            requires
                rem == (a - q) * b,
                a != q,
                b != 0,
                bb == (if b < 0 { -(b as int) } else { b as int }),
                rr == (if rem < 0 { -rem } else { rem }),
        ;
    }
}

proof fn lemma_div_le(x: int, d: int)
    requires
        x >= 0,
        d >= 1,
    ensures
        0 <= x / d <= x,
{
    assert(0 <= x / d <= x) by (nonlinear_arith)
        requires
            x >= 0,
            d >= 1,
    ;
}

proof fn lemma_trunc_div_range(x: i64, d: i64)
    requires
        d != 0,
        !(x == i64::MIN && d == -1),
    ensures
        i64::MIN <= trunc_div(x as int, d as int) <= i64::MAX,
{
    if x > 0 && d > 0 {
        lemma_div_le(x as int, d as int);
    } else if x < 0 && d < 0 {
        lemma_div_le(-x, -d);
        if x == i64::MIN {
            assert(d * -1 >= 2);
            assert((x * -1) / (d * -1) <= (x * -1) / 2) by (nonlinear_arith)
                requires
                    x * -1 >= 0,
                    d * -1 >= 2,
            ;
        }
    } else if x < 0 {
        lemma_div_le(-x, d as int);
    } else if x > 0 {
        lemma_div_le(x as int, -d);
    }
}

/// Apply an operator to two values.
fn apply_exec(op: BinOp, a: i64, b: i64) -> (r: Option<i64>)
    requires
        !(apply_op(op, a, b) is Aborts),
    ensures
        of_option(r) == apply_op(op, a, b),
{
    match op {
        BinOp::Or => {
            let r = a | b;
            assert(apply_op(op, a, b) == Outcome::Value(r));
            Some(r)
        },
        BinOp::And => Some(a & b),
        BinOp::Shl => Some(a << (b as u32)),
        BinOp::Shr => Some(a >> (b as u32)),
        BinOp::Add => Some(a + b),
        BinOp::Sub => Some(a - b),
        BinOp::Mul => Some(a * b),
        BinOp::Div => {
            if b == 0 {
                None
            } else {
                proof { lemma_trunc_div_range(a, b); }
                let q = a.checked_div(b);
                assert(q == Some(trunc_div(a as int, b as int) as i64));
                q
            }
        },
    }
}

/// Evaluate the operands `cs[a..i]` and `cs[j..b]` (left first) and combine them.
fn eval_bin(cs: &[char], a: usize, i: usize, j: usize, b: usize, op: BinOp) -> (r: Option<i64>)
    requires
        a <= i <= j <= b <= cs@.len(),
        b - a < 0x4000_0000_0000_0000,
        i < b,
        a < j,
        !(combine(eval_spec(cs@.subrange(a as int, i as int)), eval_spec(cs@.subrange(j as int, b as int)), op) is Aborts),
    ensures
        of_option(r) == combine(eval_spec(cs@.subrange(a as int, i as int)), eval_spec(cs@.subrange(j as int, b as int)), op),
    decreases b - a, 0int,
{
    let l = eval_in(cs, a, i);
    match l {
        None => None,
        Some(x) => {
            let r = eval_in(cs, j, b);
            match r {
                None => None,
                Some(y) => apply_exec(op, x, y),
            }
        },
    }
}

/// Evaluate the constant expression `cs[lo..hi]`.
fn eval_in(cs: &[char], lo: usize, hi: usize) -> (r: Option<i64>)
    requires
        lo <= hi <= cs@.len(),
        hi - lo < 0x4000_0000_0000_0000,
        !(eval_spec(cs@.subrange(lo as int, hi as int)) is Aborts),
    ensures
        of_option(r) == eval_spec(cs@.subrange(lo as int, hi as int)),
    decreases hi - lo, 2int,
{
    let ghost e0 = cs@.subrange(lo as int, hi as int);
    proof { text::lemma_trim_len(e0); }
    let (a, b) = text::trim_range(cs, lo, hi);
    let ghost e = cs@.subrange(a as int, b as int);
    assert(e == text::trim(e0));
    if a == b {
        return None;
    }
    if cs[a] == '(' && cs[b - 1] == ')' {
        if b - a >= 2 {
            assert(e.subrange(1, e.len() - 1) == cs@.subrange(a + 1, b - 1));
            return eval_in(cs, a + 1, b - 1);
        }
        return None;
    }
    match scan_in(cs, a, b, '|', false) {
        Some(i) => {
            assert(e.subrange(0, i - a) == cs@.subrange(a as int, i as int));
            assert(e.subrange(i - a + 1, e.len() as int) == cs@.subrange(i + 1, b as int));
            return eval_bin(cs, a, i, i + 1, b, BinOp::Or);
        },
        None => {},
    }
    match scan_in(cs, a, b, '&', false) {
        Some(i) => {
            assert(e.subrange(0, i - a) == cs@.subrange(a as int, i as int));
            assert(e.subrange(i - a + 1, e.len() as int) == cs@.subrange(i + 1, b as int));
            return eval_bin(cs, a, i, i + 1, b, BinOp::And);
        },
        None => {},
    }
    let shl = ['<', '<'];
    assert(shl@ =~= seq!['<', '<']);
    match text::find_seq_in(cs, a, b, &shl) {
        Some(i) => {
            assert(e.subrange(0, i - a) == cs@.subrange(a as int, i as int));
            assert(e.subrange(i - a + 2, e.len() as int) == cs@.subrange(i + 2, b as int));
            return eval_bin(cs, a, i, i + 2, b, BinOp::Shl);
        },
        None => {},
    }
    let shr = ['>', '>'];
    assert(shr@ =~= seq!['>', '>']);
    match text::find_seq_in(cs, a, b, &shr) {
        Some(i) => {
            assert(e.subrange(0, i - a) == cs@.subrange(a as int, i as int));
            assert(e.subrange(i - a + 2, e.len() as int) == cs@.subrange(i + 2, b as int));
            return eval_bin(cs, a, i, i + 2, b, BinOp::Shr);
        },
        None => {},
    }
    eval_arith_in(cs, a, b)
}

/// Evaluate the trimmed, non-empty expression `cs[a..b]` from `+` on.
#[verifier::spinoff_prover]
#[verifier::rlimit(50)]
fn eval_arith_in(cs: &[char], a: usize, b: usize) -> (r: Option<i64>)
    requires
        a < b <= cs@.len(),
        b - a < 0x4000_0000_0000_0000,
        !(eval_arith(cs@.subrange(a as int, b as int)) is Aborts),
    ensures
        of_option(r) == eval_arith(cs@.subrange(a as int, b as int)),
    decreases b - a, 1int,
{
    let ghost e = cs@.subrange(a as int, b as int);
    match scan_in(cs, a, b, '+', false) {
        Some(i) => {
            assert(e.subrange(0, i - a) == cs@.subrange(a as int, i as int));
            assert(e.subrange(i - a + 1, e.len() as int) == cs@.subrange(i + 1, b as int));
            return eval_bin(cs, a, i, i + 1, b, BinOp::Add);
        },
        None => {},
    }
    match scan_in(cs, a, b, '-', true) {
        Some(i) => {
            assert(e.subrange(0, i - a) == cs@.subrange(a as int, i as int));
            assert(e.subrange(i - a + 1, e.len() as int) == cs@.subrange(i + 1, b as int));
            return eval_bin(cs, a, i, i + 1, b, BinOp::Sub);
        },
        None => {},
    }
    match scan_in(cs, a, b, '*', false) {
        Some(i) => {
            assert(e.subrange(0, i - a) == cs@.subrange(a as int, i as int));
            assert(e.subrange(i - a + 1, e.len() as int) == cs@.subrange(i + 1, b as int));
            return eval_bin(cs, a, i, i + 1, b, BinOp::Mul);
        },
        None => {},
    }
    match scan_in(cs, a, b, '/', false) {
        Some(i) => {
            assert(e.subrange(0, i - a) == cs@.subrange(a as int, i as int));
            assert(e.subrange(i - a + 1, e.len() as int) == cs@.subrange(i + 1, b as int));
            return eval_bin(cs, a, i, i + 1, b, BinOp::Div);
        },
        None => {},
    }
    eval_atom_in(cs, a, b)
}

/// Evaluate the trimmed, non-empty, operator-free expression `cs[a..b]`.
fn eval_atom_in(cs: &[char], a: usize, b: usize) -> (r: Option<i64>)
    requires
        a < b <= cs@.len(),
        b - a < 0x4000_0000_0000_0000,
        !(eval_atom(cs@.subrange(a as int, b as int)) is Aborts),
    ensures
        of_option(r) == eval_atom(cs@.subrange(a as int, b as int)),
    decreases b - a, 0int,
{
    let ghost e = cs@.subrange(a as int, b as int);
    if cs[a] == '-' {
        assert(e.drop_first() == cs@.subrange(a + 1, b as int));
        let v = eval_in(cs, a + 1, b);
        return match v {
            Some(x) => Some(-x),
            None => None,
        };
    }
    if cs[a] == '\'' && cs[b - 1] == '\'' {
        return char_lit_in(cs, a, b);
    }
    if b - a >= 2 && cs[a] == '0' {
        let c1 = cs[a + 1];
        assert(e.subrange(2, e.len() as int) == cs@.subrange(a + 2, b as int));
        if c1 == 'x' || c1 == 'X' {
            return parse_int_in(cs, a + 2, b, 16);
        }
        if c1 == 'o' || c1 == 'O' {
            return parse_int_in(cs, a + 2, b, 8);
        }
        if c1 == 'b' || c1 == 'B' {
            return parse_int_in(cs, a + 2, b, 2);
        }
    }
    parse_int_in(cs, a, b, 10)
}

/// Evaluate a simple constant expression: integer, hexadecimal, octal and binary
/// literals, character literals, parentheses, unary `-`, and the binary operators
/// `| & << >> + - * /`. Division by zero gives `None`.
pub fn eval_const_expr(expr: &str) -> (r: Option<i64>)
    requires
        expr@.len() < 0x4000_0000_0000_0000,
        !(eval_spec(expr@) is Aborts),
    ensures
        of_option(r) == eval_spec(expr@),
{
    let cs = chars_of(expr);
    assert(cs@.subrange(0, cs@.len() as int) == expr@);
    eval_in(cs.as_slice(), 0, cs.len())
}

/// Split at the first top-level `op` (outside parentheses and character literals).
pub fn split_binary_op(expr: &str, op: char) -> (r: Option<(&str, &str)>)
    requires
        expr@.len() < 0x4000_0000_0000_0000,
    ensures
        match split_scan(expr@, op, 0, 0, false, false) {
            Some(i) => r matches Some((a, b)) && a@ == expr@.subrange(0, i) && b@ == expr@.subrange(i + 1, expr@.len() as int),
            None => r is None,
        },
{
    let cs = chars_of(expr);
    assert(cs@.subrange(0, cs@.len() as int) == expr@);
    match scan_in(cs.as_slice(), 0, cs.len(), op, false) {
        Some(i) => {
            let left = expr.substring_char(0, i);
            let right = expr.substring_char(i + 1, cs.len());
            Some((left, right))
        },
        None => None,
    }
}

/// Split at the first top-level `op` that is a binary operator: not at the start, and
/// after a digit, `)` or `'` (skipping white space).
pub fn split_binary_op_careful(expr: &str, op: char) -> (r: Option<(&str, &str)>)
    requires
        expr@.len() < 0x4000_0000_0000_0000,
    ensures
        match split_scan_careful(expr@, op, 0, 0, false, false) {
            Some(i) => r matches Some((a, b)) && a@ == expr@.subrange(0, i) && b@ == expr@.subrange(i + 1, expr@.len() as int),
            None => r is None,
        },
{
    let cs = chars_of(expr);
    assert(cs@.subrange(0, cs@.len() as int) == expr@);
    match scan_in(cs.as_slice(), 0, cs.len(), op, true) {
        Some(i) => {
            let left = expr.substring_char(0, i);
            let right = expr.substring_char(i + 1, cs.len());
            Some((left, right))
        },
        None => None,
    }
}

/// Value assigned to `nc` by the declaration line `cs[lo..hi]`.
fn assign_in(cs: &[char], lo: usize, hi: usize, nc: &[char]) -> (r: Option<i64>)
    requires
        lo <= hi <= cs@.len(),
        hi - lo < 0x4000_0000_0000_0000,
        !(assign_spec(cs@.subrange(lo as int, hi as int), nc@) is Aborts),
    ensures
        of_option(r) == assign_spec(cs@.subrange(lo as int, hi as int), nc@),
{
    let ghost line = cs@.subrange(lo as int, hi as int);
    let slash = ['/', '/'];
    assert(slash@ =~= seq!['/', '/']);
    let end = match text::find_seq_in(cs, lo, hi, &slash) {
        Some(i) => i,
        None => hi,
    };
    assert(line.subrange(0, end - lo) == cs@.subrange(lo as int, end as int));
    let (a, b) = text::trim_range(cs, lo, end);
    let ghost l = cs@.subrange(a as int, b as int);
    match text::find_char_in(cs, a, b, '=') {
        None => None,
        Some(k) => {
            assert(l.subrange(0, k - a) == cs@.subrange(a as int, k as int));
            assert(l.subrange(k - a + 1, l.len() as int) == cs@.subrange(k + 1, b as int));
            let (na, nb) = text::trim_range(cs, a, k);
            let ws = text::split_ws_ranges(cs, na, nb);
            if ws.len() == 0 {
                return None;
            }
            let w = ws[0];
            assert(text::pieces(cs@, ws@)[0] == cs@.subrange(w.0 as int, w.1 as int));
            if !text::range_eq(cs, w.0, w.1, nc) {
                return None;
            }
            let (va, vb) = text::trim_range(cs, k + 1, b);
            eval_in(cs, va, vb)
        },
    }
}

/// Parse the value assigned to `const_name` by one declaration line.
pub fn parse_const_assignment(line: &str, const_name: &str) -> (r: Option<i64>)
    requires
        line@.len() < 0x4000_0000_0000_0000,
        !(assign_spec(line@, const_name@) is Aborts),
    ensures
        of_option(r) == assign_spec(line@, const_name@),
{
    let cs = chars_of(line);
    let nc = chars_of(const_name);
    assert(cs@.subrange(0, cs@.len() as int) == line@);
    assign_in(cs.as_slice(), 0, cs.len(), nc.as_slice())
}

/// One step of the scan on the trimmed line `cs[ta..tb]`.
fn line_step_in(cs: &[char], ta: usize, tb: usize, nc: &[char], in_block: bool) -> (r: (bool, Option<i64>))
    requires
        ta <= tb <= cs@.len(),
        tb - ta < 0x4000_0000_0000_0000,
        !(line_step(cs@.subrange(ta as int, tb as int), nc@, in_block).1 is Aborts),
    ensures
        r.0 == line_step(cs@.subrange(ta as int, tb as int), nc@, in_block).0,
        of_option(r.1) == line_step(cs@.subrange(ta as int, tb as int), nc@, in_block).1,
{
    reveal(line_step);
    let ghost t = cs@.subrange(ta as int, tb as int);
    let open_kw = chars_of("const (");
    let const_kw = chars_of("const ");
    proof {
        reveal_strlit("const ");
    }
    let close = [')'];
    assert(close@ =~= seq![')']);
    if text::range_eq(cs, ta, tb, open_kw.as_slice()) {
        (true, None)
    } else if in_block && text::range_eq(cs, ta, tb, &close) {
        (false, None)
    } else if text::range_starts_with(cs, ta, tb, const_kw.as_slice()) {
        assert(t.subrange(6, t.len() as int) == cs@.subrange(ta + 6, tb as int));
        if tb > ta + 6 && cs[ta + 6] == '(' {
            (in_block, None)
        } else {
            (in_block, assign_in(cs, ta + 6, tb, nc))
        }
    } else if in_block {
        (in_block, assign_in(cs, ta, tb, nc))
    } else {
        (in_block, None)
    }
}

/// Find the value of constant `const_name` declared in Vo source code, either as
/// `const Name = value` or as an entry of a `const ( ... )` block.
pub fn parse_const_value(source: &str, const_name: &str) -> (r: Option<i64>)
    requires
        source@.len() < 0x4000_0000_0000_0000,
        !(const_value_spec(source@, const_name@) is Aborts),
    ensures
        of_option(r) == const_value_spec(source@, const_name@),
{
    let cs = chars_of(source);
    let nc = chars_of(const_name);
    let n = cs.len();
    assert(cs@.subrange(0, n as int) == source@);
    let ls = text::lines_ranges(cs.as_slice(), 0, n);
    let ghost lsv = text::pieces(cs@, ls@);
    let mut in_block = false;
    let mut i: usize = 0;
    while i < ls.len()
        invariant
            cs@ == source@,
            n == cs@.len(),
            n < 0x4000_0000_0000_0000,
            nc@ == const_name@,
            text::ranges_within(ls@, 0, n as int),
            lsv == text::pieces(cs@, ls@),
            lsv == text::lines(source@),
            0 <= i <= ls@.len(),
            const_scan(lsv, const_name@, 0, false) == const_scan(lsv, const_name@, i as int, in_block),
            !(const_scan(lsv, const_name@, 0, false) is Aborts),
        decreases ls.len() - i,
    {
        let (la, lb) = ls[i];
        assert(lsv[i as int] == cs@.subrange(la as int, lb as int));
        let (ta, tb) = text::trim_range(cs.as_slice(), la, lb);
        let (nb, v) = line_step_in(cs.as_slice(), ta, tb, nc.as_slice(), in_block);
        if v.is_some() {
            return v;
        }
        in_block = nb;
        i = i + 1;
    }
    None
}

proof fn lemma_split_scan_at(s: Seq<char>, op: char, i: int, depth: int, in_char: bool, prev_bs: bool)
    ensures
        split_scan(s, op, i, depth, in_char, prev_bs) matches Some(k) ==> i <= k < s.len() && s[k] == op,
    decreases s.len() - i,
{
    if 0 <= i < s.len() {
        let c = s[i];
        if in_char {
            lemma_split_scan_at(s, op, i + 1, depth, !(c == '\'' && !prev_bs), c == '\\' && !prev_bs);
        } else if c == '\'' {
            lemma_split_scan_at(s, op, i + 1, depth, true, prev_bs);
        } else if c == '(' {
            lemma_split_scan_at(s, op, i + 1, depth + 1, in_char, prev_bs);
        } else if c == ')' {
            lemma_split_scan_at(s, op, i + 1, depth - 1, in_char, prev_bs);
        } else if !(c == op && depth == 0) {
            lemma_split_scan_at(s, op, i + 1, depth, in_char, prev_bs);
        }
    }
}

/// The two sides found by a split, with the operator between them, make up the whole
/// expression.
pub proof fn lemma_split_rejoins(expr: Seq<char>, op: char)
    ensures
        split_scan(expr, op, 0, 0, false, false) matches Some(i) ==> 0 <= i < expr.len() && expr == expr.subrange(0, i)
            + seq![op] + expr.subrange(i + 1, expr.len() as int),
{
    lemma_split_scan_at(expr, op, 0, 0, false, false);
    if let Some(i) = split_scan(expr, op, 0, 0, false, false) {
        assert(expr =~= expr.subrange(0, i) + seq![op] + expr.subrange(i + 1, expr.len() as int));
    }
}

} // verus!
