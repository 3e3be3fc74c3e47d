//! Character-level text helpers shared by the source parsers.
//!
//! Text is handled as a sequence of characters. Executable helpers work on a
//! character slice and a range `[lo, hi)` of it, and return positions, so that
//! callers can cut the matching pieces out of the original string.

use vstd::prelude::*;
use vstd::string::StrSliceExecFns;

verus! {

broadcast use vstd::string::group_string_axioms;

/// Outcome of a parse: a value, nothing found, or a panic of the parsing code.
pub enum Outcome<T> {
    Value(T),
    Absent,
    Aborts,
}

// ==================== Character classes ====================

/// Unicode `White_Space` (what `char::is_whitespace` tests).
pub open spec fn is_ws(c: char) -> bool {
    ||| ('\u{9}' <= c && c <= '\u{d}')
    ||| c == ' '
    ||| c == '\u{85}'
    ||| c == '\u{a0}'
    ||| c == '\u{1680}'
    ||| ('\u{2000}' <= c && c <= '\u{200a}')
    ||| c == '\u{2028}'
    ||| c == '\u{2029}'
    ||| c == '\u{202f}'
    ||| c == '\u{205f}'
    ||| c == '\u{3000}'
}

/// Whether `c` is a Unicode white-space character.
pub fn is_whitespace(c: char) -> (r: bool)
    ensures
        r == is_ws(c),
{
    ('\u{9}' <= c && c <= '\u{d}') || c == ' ' || c == '\u{85}' || c == '\u{a0}'
        || c == '\u{1680}' || ('\u{2000}' <= c && c <= '\u{200a}') || c == '\u{2028}'
        || c == '\u{2029}' || c == '\u{202f}' || c == '\u{205f}' || c == '\u{3000}'
}

/// ASCII decimal digit.
pub open spec fn is_digit(c: char) -> bool {
    '0' <= c && c <= '9'
}

/// Whether `c` is an ASCII decimal digit.
pub fn is_digit_char(c: char) -> (r: bool)
    ensures
        r == is_digit(c),
{
    '0' <= c && c <= '9'
}

// ==================== Conversion ====================

/// The characters of a string slice, in order.
pub fn chars_of(s: &str) -> (r: Vec<char>)
    ensures
        r@ == s@,
{
    let mut out: Vec<char> = Vec::new();
    let mut it = s.chars();
    loop
        invariant
            out@ + vstd::std_specs::iter::IteratorSpec::remaining(&it) == s@,
            vstd::std_specs::iter::IteratorSpec::obeys_prophetic_iter_laws(&it),
            vstd::std_specs::iter::IteratorSpec::decrease(&it) is Some,
        ensures
            out@ == s@,
        decreases vstd::std_specs::iter::IteratorSpec::decrease(&it)->0,
    {
        let c = it.next();
        match c {
            Some(ch) => {
                out.push(ch);
            },
            None => {
                break;
            },
        }
    }
    out
}

/// The owned string made of the characters `s[lo..hi]` (by character position).
pub fn substring(s: &str, lo: usize, hi: usize) -> (r: String)
    requires
        lo <= hi <= s@.len(),
    ensures
        r@ == s@.subrange(lo as int, hi as int),
{
    let piece = s.substring_char(lo, hi);
    piece.to_owned()
}

// ==================== Trimming ====================

/// Number of leading white-space characters.
pub open spec fn ws_prefix_len(s: Seq<char>) -> nat
    decreases s.len(),
{
    if s.len() > 0 && is_ws(s[0]) { 1 + ws_prefix_len(s.drop_first()) } else { 0 }
}

/// Number of trailing white-space characters.
pub open spec fn ws_suffix_len(s: Seq<char>) -> nat
    decreases s.len(),
{
    if s.len() > 0 && is_ws(s.last()) { 1 + ws_suffix_len(s.drop_last()) } else { 0 }
}

/// `s` without leading white space.
pub open spec fn trim_start(s: Seq<char>) -> Seq<char> {
    s.subrange(ws_prefix_len(s) as int, s.len() as int)
}

/// `s` without trailing white space.
pub open spec fn trim_end(s: Seq<char>) -> Seq<char> {
    s.subrange(0, s.len() - ws_suffix_len(s))
}

/// `s` without leading and trailing white space.
pub open spec fn trim(s: Seq<char>) -> Seq<char> {
    trim_end(trim_start(s))
}

pub proof fn lemma_ws_prefix_len_bound(s: Seq<char>)
    ensures
        ws_prefix_len(s) <= s.len(),
    decreases s.len(),
{
    if s.len() > 0 && is_ws(s[0]) {
        lemma_ws_prefix_len_bound(s.drop_first());
    }
}

pub proof fn lemma_ws_suffix_len_bound(s: Seq<char>)
    ensures
        ws_suffix_len(s) <= s.len(),
    decreases s.len(),
{
    if s.len() > 0 && is_ws(s.last()) {
        lemma_ws_suffix_len_bound(s.drop_last());
    }
}

/// `ws_prefix_len(s) == k` exactly when the first `k` characters are white space and
/// the next one (if any) is not.
pub proof fn lemma_ws_prefix_len_char(s: Seq<char>, k: int)
    requires
        0 <= k <= s.len(),
        forall|j: int| 0 <= j < k ==> is_ws(#[trigger] s[j]),
        k == s.len() || !is_ws(s[k]),
    ensures
        ws_prefix_len(s) == k,
    decreases k,
{
    if k > 0 {
        let t = s.drop_first();
        assert forall|j: int| 0 <= j < k - 1 implies is_ws(#[trigger] t[j]) by {
            assert(t[j] == s[j + 1]);
        }
        lemma_ws_prefix_len_char(t, k - 1);
    }
}

/// `ws_suffix_len(s) == k` exactly when the last `k` characters are white space and
/// the one before them (if any) is not.
pub proof fn lemma_ws_suffix_len_char(s: Seq<char>, k: int)
    requires
        0 <= k <= s.len(),
        forall|j: int| s.len() - k <= j < s.len() ==> is_ws(#[trigger] s[j]),
        k == s.len() || !is_ws(s[s.len() - k - 1]),
    ensures
        ws_suffix_len(s) == k,
    decreases k,
{
    if k > 0 {
        let t = s.drop_last();
        assert forall|j: int| t.len() - (k - 1) <= j < t.len() implies is_ws(#[trigger] t[j]) by {
            assert(t[j] == s[j]);
        }
        lemma_ws_suffix_len_char(t, k - 1);
    }
}

pub proof fn lemma_trim_len(s: Seq<char>)
    ensures
        trim_start(s).len() <= s.len(),
        trim_end(s).len() <= s.len(),
        trim(s).len() <= s.len(),
{
    lemma_ws_prefix_len_bound(s);
    lemma_ws_suffix_len_bound(s);
    lemma_ws_suffix_len_bound(trim_start(s));
}

/// Positions of the trimmed piece of `cs[lo..hi]`.
pub fn trim_range(cs: &[char], lo: usize, hi: usize) -> (r: (usize, usize))
    requires
        lo <= hi <= cs@.len(),
    ensures
        lo <= r.0 <= r.1 <= hi,
        cs@.subrange(r.0 as int, r.1 as int) == trim(cs@.subrange(lo as int, hi as int)),
        cs@.subrange(r.0 as int, hi as int) == trim_start(cs@.subrange(lo as int, hi as int)),
        r.0 == hi || !is_ws(cs@[r.0 as int]),
        r.0 < r.1 ==> !is_ws(cs@[r.1 - 1]),
{
    let (a, _) = trim_start_range(cs, lo, hi);
    let b = trim_end_pos(cs, a, hi);
    let ghost s = cs@.subrange(lo as int, hi as int);
    let ghost t = cs@.subrange(a as int, hi as int);
    assert(trim_start(s) == t);
    assert(trim_end(t) == cs@.subrange(a as int, b as int));
    (a, b)
}

/// Start of the piece of `cs[lo..hi]` without leading white space.
pub fn trim_start_range(cs: &[char], lo: usize, hi: usize) -> (r: (usize, usize))
    requires
        lo <= hi <= cs@.len(),
    ensures
        lo <= r.0 <= hi,
        r.1 == hi,
        cs@.subrange(r.0 as int, hi as int) == trim_start(cs@.subrange(lo as int, hi as int)),
        r.0 == hi || !is_ws(cs@[r.0 as int]),
        forall|j: int| lo <= j < r.0 ==> is_ws(#[trigger] cs@[j]),
{
    let mut a = lo;
    while a < hi && is_whitespace(cs[a])
        invariant
            lo <= a <= hi <= cs@.len(),
            forall|j: int| lo <= j < a ==> is_ws(#[trigger] cs@[j]),
        decreases hi - a,
    {
        a = a + 1;
    }
    let ghost s = cs@.subrange(lo as int, hi as int);
    proof {
        assert forall|j: int| 0 <= j < a - lo implies is_ws(#[trigger] s[j]) by {
            assert(s[j] == cs@[lo + j]);
        }
        lemma_ws_prefix_len_char(s, a - lo);
        assert(s.subrange(a - lo, s.len() as int) == cs@.subrange(a as int, hi as int));
    }
    (a, hi)
}

/// End of the piece of `cs[lo..hi]` without trailing white space.
pub fn trim_end_pos(cs: &[char], lo: usize, hi: usize) -> (r: usize)
    requires
        lo <= hi <= cs@.len(),
    ensures
        lo <= r <= hi,
        cs@.subrange(lo as int, r as int) == trim_end(cs@.subrange(lo as int, hi as int)),
        lo < r ==> !is_ws(cs@[r - 1]),
        forall|j: int| r <= j < hi ==> is_ws(#[trigger] cs@[j]),
{
    let mut b = hi;
    while b > lo && is_whitespace(cs[b - 1])
        invariant
            lo <= b <= hi <= cs@.len(),
            forall|j: int| b <= j < hi ==> is_ws(#[trigger] cs@[j]),
        decreases b - lo,
    {
        b = b - 1;
    }
    let ghost s = cs@.subrange(lo as int, hi as int);
    proof {
        assert forall|j: int| s.len() - (hi - b) <= j < s.len() implies is_ws(#[trigger] s[j]) by {
            assert(s[j] == cs@[lo + j]);
        }
        if b > lo {
            assert(s[s.len() - (hi - b) - 1] == cs@[b - 1]);
        }
        lemma_ws_suffix_len_char(s, hi - b);
        assert(s.subrange(0, s.len() - (hi - b)) == cs@.subrange(lo as int, b as int));
    }
    b
}

// ==================== Prefixes and suffixes ====================

/// `s` starts with `p`.
pub open spec fn starts_with(s: Seq<char>, p: Seq<char>) -> bool {
    p.len() <= s.len() && s.subrange(0, p.len() as int) == p
}

/// `s` ends with `p`.
pub open spec fn ends_with(s: Seq<char>, p: Seq<char>) -> bool {
    p.len() <= s.len() && s.subrange(s.len() - p.len(), s.len() as int) == p
}

/// Whether `cs[lo..hi]` equals `p`.
pub fn range_eq(cs: &[char], lo: usize, hi: usize, p: &[char]) -> (r: bool)
    requires
        lo <= hi <= cs@.len(),
    ensures
        r == (cs@.subrange(lo as int, hi as int) == p@),
{
    if hi - lo != p.len() {
        return false;
    }
    let mut j: usize = 0;
    while j < p.len()
        invariant
            lo <= hi <= cs@.len(),
            hi - lo == p.len(),
            0 <= j <= p.len(),
            forall|k: int| 0 <= k < j ==> cs@[lo + k] == p@[k],
        decreases p.len() - j,
    {
        if cs[lo + j] != p[j] {
            assert(cs@.subrange(lo as int, hi as int)[j as int] != p@[j as int]);
            return false;
        }
        j = j + 1;
    }
    assert(cs@.subrange(lo as int, hi as int) =~= p@);
    true
}

/// Whether `cs[lo..hi]` starts with `p`.
pub fn range_starts_with(cs: &[char], lo: usize, hi: usize, p: &[char]) -> (r: bool)
    requires
        lo <= hi <= cs@.len(),
    ensures
        r == starts_with(cs@.subrange(lo as int, hi as int), p@),
{
    if p.len() > hi - lo {
        return false;
    }
    let e = lo + p.len();
    let r = range_eq(cs, lo, e, p);
    assert(cs@.subrange(lo as int, hi as int).subrange(0, p.len() as int) == cs@.subrange(lo as int, e as int));
    r
}

/// Whether `cs[lo..hi]` ends with `p`.
pub fn range_ends_with(cs: &[char], lo: usize, hi: usize, p: &[char]) -> (r: bool)
    requires
        lo <= hi <= cs@.len(),
    ensures
        r == ends_with(cs@.subrange(lo as int, hi as int), p@),
{
    if p.len() > hi - lo {
        return false;
    }
    let b = hi - p.len();
    let r = range_eq(cs, b, hi, p);
    let ghost s = cs@.subrange(lo as int, hi as int);
    assert(s.subrange(s.len() - p.len(), s.len() as int) == cs@.subrange(b as int, hi as int));
    r
}

// ==================== Searching ====================

/// Position of the first `c` in `s`.
pub open spec fn find_char(s: Seq<char>, c: char) -> Option<int>
    decreases s.len(),
{
    if s.len() == 0 {
        None
    } else if s[0] == c {
        Some(0)
    } else {
        match find_char(s.drop_first(), c) {
            Some(i) => Some(i + 1),
            None => None,
        }
    }
}

/// `find_char(s, c) == Some(k)` exactly when `s[k] == c` and no `c` comes before.
pub proof fn lemma_find_char_some(s: Seq<char>, c: char, k: int)
    requires
        0 <= k < s.len(),
        s[k] == c,
        forall|j: int| 0 <= j < k ==> s[j] != c,
    ensures
        find_char(s, c) == Some(k),
    decreases k,
{
    if k > 0 {
        let t = s.drop_first();
        assert forall|j: int| 0 <= j < k - 1 implies t[j] != c by {
            assert(t[j] == s[j + 1]);
        }
        lemma_find_char_some(t, c, k - 1);
    }
}

/// `find_char(s, c)` is `None` exactly when `c` does not occur.
pub proof fn lemma_find_char_none(s: Seq<char>, c: char)
    requires
        forall|j: int| 0 <= j < s.len() ==> s[j] != c,
    ensures
        find_char(s, c) is None,
    decreases s.len(),
{
    if s.len() > 0 {
        let t = s.drop_first();
        assert forall|j: int| 0 <= j < t.len() implies t[j] != c by {
            assert(t[j] == s[j + 1]);
        }
        lemma_find_char_none(t, c);
    }
}

/// What `find_char` returns is a position of `c` with no `c` before it.
pub proof fn lemma_find_char_facts(s: Seq<char>, c: char)
    ensures
        match find_char(s, c) {
            Some(k) => 0 <= k < s.len() && s[k] == c && forall|j: int| 0 <= j < k ==> s[j] != c,
            None => forall|j: int| 0 <= j < s.len() ==> s[j] != c,
        },
    decreases s.len(),
{
    if s.len() > 0 && s[0] != c {
        let t = s.drop_first();
        lemma_find_char_facts(t, c);
        match find_char(t, c) {
            Some(k) => {
                assert forall|j: int| 0 <= j < k + 1 implies s[j] != c by {
                    if j > 0 {
                        assert(s[j] == t[j - 1]);
                    }
                }
            },
            None => {
                assert forall|j: int| 0 <= j < s.len() implies s[j] != c by {
                    if j > 0 {
                        assert(s[j] == t[j - 1]);
                    }
                }
            },
        }
    }
}

/// Position (in `cs`) of the first `c` in `cs[lo..hi]`.
pub fn find_char_in(cs: &[char], lo: usize, hi: usize, c: char) -> (r: Option<usize>)
    requires
        lo <= hi <= cs@.len(),
    ensures
        match r {
            Some(k) => lo <= k < hi && find_char(cs@.subrange(lo as int, hi as int), c) == Some(k - lo),
            None => find_char(cs@.subrange(lo as int, hi as int), c) is None,
        },
{
    let mut k = lo;
    while k < hi
        invariant
            lo <= k <= hi <= cs@.len(),
            forall|j: int| lo <= j < k ==> cs@[j] != c,
        decreases hi - k,
    {
        if cs[k] == c {
            let ghost s = cs@.subrange(lo as int, hi as int);
            proof {
                assert forall|j: int| 0 <= j < k - lo implies s[j] != c by {
                    assert(s[j] == cs@[lo + j]);
                }
                lemma_find_char_some(s, c, k - lo);
            }
            return Some(k);
        }
        k = k + 1;
    }
    let ghost s = cs@.subrange(lo as int, hi as int);
    proof {
        assert forall|j: int| 0 <= j < s.len() implies s[j] != c by {
            assert(s[j] == cs@[lo + j]);
        }
        lemma_find_char_none(s, c);
    }
    None
}

/// `s` contains `c`.
pub open spec fn contains_char(s: Seq<char>, c: char) -> bool {
    exists|j: int| 0 <= j < s.len() && s[j] == c
}

/// Whether `cs[lo..hi]` contains `c`.
pub fn range_contains_char(cs: &[char], lo: usize, hi: usize, c: char) -> (r: bool)
    requires
        lo <= hi <= cs@.len(),
    ensures
        r == contains_char(cs@.subrange(lo as int, hi as int), c),
{
    let f = find_char_in(cs, lo, hi, c);
    let ghost s = cs@.subrange(lo as int, hi as int);
    proof { lemma_find_char_facts(s, c); }
    match f {
        Some(k) => {
            assert(s[k - lo] == c);
            true
        },
        None => false,
    }
}

/// Position of the first occurrence of `p` in `s`.
pub open spec fn find_seq(s: Seq<char>, p: Seq<char>) -> Option<int>
    decreases s.len(),
{
    if starts_with(s, p) {
        Some(0)
    } else if s.len() == 0 {
        None
    } else {
        match find_seq(s.drop_first(), p) {
            Some(i) => Some(i + 1),
            None => None,
        }
    }
}

proof fn lemma_starts_with_shift(s: Seq<char>, p: Seq<char>, k: int)
    requires
        0 <= k <= s.len(),
    ensures
        starts_with(s.subrange(k, s.len() as int), p) == (k + p.len() <= s.len()
            && s.subrange(k, k + p.len()) == p),
{
    let t = s.subrange(k, s.len() as int);
    if p.len() <= t.len() {
        assert(t.subrange(0, p.len() as int) == s.subrange(k, k + p.len()));
    }
}

/// `find_seq(s, p) == Some(k)` exactly when `p` occurs at `k` and at no earlier position.
pub proof fn lemma_find_seq_some(s: Seq<char>, p: Seq<char>, k: int)
    requires
        0 <= k <= s.len(),
        starts_with(s.subrange(k, s.len() as int), p),
        forall|j: int| 0 <= j < k ==> !starts_with(#[trigger] s.subrange(j, s.len() as int), p),
    ensures
        find_seq(s, p) == Some(k),
    decreases k,
{
    assert(s.subrange(0, s.len() as int) == s);
    if k > 0 {
        let t = s.drop_first();
        assert(!starts_with(s.subrange(0, s.len() as int), p));
        assert(t.subrange(k - 1, t.len() as int) == s.subrange(k, s.len() as int));
        assert forall|j: int| 0 <= j < k - 1 implies !starts_with(#[trigger] t.subrange(j, t.len() as int), p) by {
            assert(t.subrange(j, t.len() as int) == s.subrange(j + 1, s.len() as int));
        }
        lemma_find_seq_some(t, p, k - 1);
    }
}

/// `find_seq(s, p)` is `None` when `p` occurs nowhere.
pub proof fn lemma_find_seq_none(s: Seq<char>, p: Seq<char>)
    requires
        forall|j: int| 0 <= j <= s.len() ==> !starts_with(#[trigger] s.subrange(j, s.len() as int), p),
    ensures
        find_seq(s, p) is None,
    decreases s.len(),
{
    assert(s.subrange(0, s.len() as int) == s);
    if s.len() > 0 {
        let t = s.drop_first();
        assert forall|j: int| 0 <= j <= t.len() implies !starts_with(#[trigger] t.subrange(j, t.len() as int), p) by {
            assert(t.subrange(j, t.len() as int) == s.subrange(j + 1, s.len() as int));
        }
        lemma_find_seq_none(t, p);
    }
}

/// Position (in `cs`) of the first occurrence of `p` in `cs[lo..hi]`.
pub fn find_seq_in(cs: &[char], lo: usize, hi: usize, p: &[char]) -> (r: Option<usize>)
    requires
        lo <= hi <= cs@.len(),
    ensures
        match r {
            Some(k) => lo <= k && k + p@.len() <= hi && cs@.subrange(k as int, k + p@.len()) == p@
                && find_seq(cs@.subrange(lo as int, hi as int), p@) == Some(k - lo),
            None => find_seq(cs@.subrange(lo as int, hi as int), p@) is None,
        },
{
    let ghost s = cs@.subrange(lo as int, hi as int);
    let mut k = lo;
    while k <= hi
        invariant
            lo <= k <= hi + 1,
            hi <= cs@.len(),
            s == cs@.subrange(lo as int, hi as int),
            forall|j: int| 0 <= j < k - lo ==> !starts_with(#[trigger] s.subrange(j, s.len() as int), p@),
        decreases hi + 1 - k,
    {
        let m = range_starts_with(cs, k, hi, p);
        proof {
            assert(s.subrange(k - lo, s.len() as int) == cs@.subrange(k as int, hi as int));
        }
        if m {
            proof {
                lemma_find_seq_some(s, p@, k - lo);
                assert(cs@.subrange(k as int, hi as int).subrange(0, p@.len() as int) == cs@.subrange(k as int, k + p@.len()));
            }
            return Some(k);
        }
        if k == hi {
            proof { lemma_find_seq_none(s, p@); }
            return None;
        }
        k = k + 1;
    }
    proof { lemma_find_seq_none(s, p@); }
    None
}

// ==================== Splitting ====================

/// The pieces of `s` between occurrences of `c` (there is always at least one).
pub open spec fn split_char(s: Seq<char>, c: char) -> Seq<Seq<char>>
    decreases s.len(),
{
    match find_char(s, c) {
        None => seq![s],
        Some(i) => {
            if 0 <= i < s.len() {
                seq![s.subrange(0, i)] + split_char(s.subrange(i + 1, s.len() as int), c)
            } else {
                seq![s]
            }
        },
    }
}

/// The pieces that a list of ranges of `cs` denote.
pub open spec fn pieces(cs: Seq<char>, rs: Seq<(usize, usize)>) -> Seq<Seq<char>> {
    rs.map_values(|r: (usize, usize)| cs.subrange(r.0 as int, r.1 as int))
}

/// The ranges all lie within `[lo, hi)` of a sequence.
pub open spec fn ranges_within(rs: Seq<(usize, usize)>, lo: int, hi: int) -> bool {
    forall|k: int| 0 <= k < rs.len() ==> lo <= #[trigger] rs[k].0 <= rs[k].1 <= hi
}

/// Ranges of the pieces of `cs[lo..hi]` between occurrences of `c`.
pub fn split_char_ranges(cs: &[char], lo: usize, hi: usize, c: char) -> (r: Vec<(usize, usize)>)
    requires
        lo <= hi <= cs@.len(),
    ensures
        pieces(cs@, r@) == split_char(cs@.subrange(lo as int, hi as int), c),
        ranges_within(r@, lo as int, hi as int),
{
    let mut out: Vec<(usize, usize)> = Vec::new();
    let mut start = lo;
    loop
        invariant_except_break
            lo <= start <= hi <= cs@.len(),
            pieces(cs@, out@) + split_char(cs@.subrange(start as int, hi as int), c)
                == split_char(cs@.subrange(lo as int, hi as int), c),
            ranges_within(out@, lo as int, hi as int),
        ensures
            pieces(cs@, out@) == split_char(cs@.subrange(lo as int, hi as int), c),
            ranges_within(out@, lo as int, hi as int),
        decreases hi - start,
    {
        let ghost old_out = out@;
        let f = find_char_in(cs, start, hi, c);
        let ghost s = cs@.subrange(start as int, hi as int);
        match f {
            None => {
                proof {
                    assert(split_char(s, c) == seq![s]);
                    assert(pieces(cs@, out@.push((start, hi))) == pieces(cs@, out@).push(s));
                    assert(pieces(cs@, out@).push(s) == pieces(cs@, out@) + seq![s]);
                }
                out.push((start, hi));
                assert(ranges_within(out@, lo as int, hi as int)) by {
                    assert forall|k: int| 0 <= k < out@.len() implies lo <= #[trigger] out@[k].0 <= out@[k].1 <= hi by {
                        if k < out@.len() - 1 {
                            assert(out@[k] == old_out[k]);
                        }
                    }
                }
                break;
            },
            Some(k) => {
                proof {
                    let i = k - start;
                    assert(s.subrange(0, i) == cs@.subrange(start as int, k as int));
                    assert(s.subrange(i + 1, s.len() as int) == cs@.subrange(k + 1, hi as int));
                    assert(split_char(s, c) == seq![cs@.subrange(start as int, k as int)]
                        + split_char(cs@.subrange(k + 1, hi as int), c));
                    assert(pieces(cs@, out@.push((start, k))) == pieces(cs@, out@).push(cs@.subrange(start as int, k as int)));
                    assert(pieces(cs@, out@).push(cs@.subrange(start as int, k as int))
                        + split_char(cs@.subrange(k + 1, hi as int), c)
                        == pieces(cs@, out@) + (seq![cs@.subrange(start as int, k as int)]
                        + split_char(cs@.subrange(k + 1, hi as int), c)));
                }
                out.push((start, k));
                start = k + 1;
            },
        }
    }
    out
}

/// The maximal runs of non-white-space characters of `s` (what `split_whitespace` yields).
pub open spec fn split_ws(s: Seq<char>) -> Seq<Seq<char>>
    decreases s.len(),
{
    let t = trim_start(s);
    if t.len() == 0 || t.len() > s.len() {
        Seq::empty()
    } else {
        let k = first_ws(t);
        if 0 < k <= t.len() {
            seq![t.subrange(0, k)] + split_ws(t.subrange(k, t.len() as int))
        } else {
            Seq::empty()
        }
    }
}

/// Position of the first white-space character, or the length when there is none.
pub open spec fn first_ws(s: Seq<char>) -> int
    decreases s.len(),
{
    if s.len() == 0 {
        0
    } else if is_ws(s[0]) {
        0
    } else {
        1 + first_ws(s.drop_first())
    }
}

proof fn lemma_first_ws_char(s: Seq<char>, k: int)
    requires
        0 <= k <= s.len(),
        forall|j: int| 0 <= j < k ==> !is_ws(#[trigger] s[j]),
        k == s.len() || is_ws(s[k]),
    ensures
        first_ws(s) == k,
    decreases k,
{
    if k > 0 {
        let t = s.drop_first();
        assert forall|j: int| 0 <= j < k - 1 implies !is_ws(#[trigger] t[j]) by {
            assert(t[j] == s[j + 1]);
        }
        lemma_first_ws_char(t, k - 1);
    }
}

/// Ranges of the white-space separated words of `cs[lo..hi]`.
pub fn split_ws_ranges(cs: &[char], lo: usize, hi: usize) -> (r: Vec<(usize, usize)>)
    requires
        lo <= hi <= cs@.len(),
    ensures
        pieces(cs@, r@) == split_ws(cs@.subrange(lo as int, hi as int)),
        ranges_within(r@, lo as int, hi as int),
{
    let mut out: Vec<(usize, usize)> = Vec::new();
    let mut start = lo;
    loop
        invariant
            lo <= start <= hi <= cs@.len(),
            pieces(cs@, out@) + split_ws(cs@.subrange(start as int, hi as int))
                == split_ws(cs@.subrange(lo as int, hi as int)),
            ranges_within(out@, lo as int, hi as int),
        ensures
            pieces(cs@, out@) == split_ws(cs@.subrange(lo as int, hi as int)),
            ranges_within(out@, lo as int, hi as int),
        decreases hi - start,
    {
        let ghost s = cs@.subrange(start as int, hi as int);
        let (a, _) = trim_start_range(cs, start, hi);
        proof { lemma_trim_len(s); }
        if a == hi {
            proof {
                assert(trim_start(s).len() == 0);
                assert(split_ws(s) == Seq::<Seq<char>>::empty());
                assert(pieces(cs@, out@) + Seq::<Seq<char>>::empty() == pieces(cs@, out@));
            }
            break;
        }
        let mut b = a;
        while b < hi && !is_whitespace(cs[b])
            invariant
                a <= b <= hi <= cs@.len(),
                forall|j: int| a <= j < b ==> !is_ws(#[trigger] cs@[j]),
            decreases hi - b,
        {
            b = b + 1;
        }
        proof {
            let t = cs@.subrange(a as int, hi as int);
            assert(trim_start(s) == t);
            assert forall|j: int| 0 <= j < b - a implies !is_ws(#[trigger] t[j]) by {
                assert(t[j] == cs@[a + j]);
            }
            if b < hi {
                assert(t[b - a] == cs@[b as int]);
            }
            lemma_first_ws_char(t, b - a);
            assert(!is_ws(cs@[a as int]));
            assert(b > a);
            assert(t.subrange(0, b - a) == cs@.subrange(a as int, b as int));
            assert(t.subrange(b - a, t.len() as int) == cs@.subrange(b as int, hi as int));
            assert(split_ws(s) == seq![cs@.subrange(a as int, b as int)] + split_ws(cs@.subrange(b as int, hi as int)));
            assert(pieces(cs@, out@.push((a, b))) == pieces(cs@, out@).push(cs@.subrange(a as int, b as int)));
            assert(pieces(cs@, out@).push(cs@.subrange(a as int, b as int))
                + split_ws(cs@.subrange(b as int, hi as int))
                == pieces(cs@, out@) + (seq![cs@.subrange(a as int, b as int)]
                + split_ws(cs@.subrange(b as int, hi as int))));
        }
        out.push((a, b));
        start = b;
    }
    out
}

/// The lines of `s` as `str::lines` yields them: split after each `'\n'`, the `'\n'`
/// removed and then a `'\r'` just before it; no final empty line after a last `'\n'`.
pub open spec fn lines(s: Seq<char>) -> Seq<Seq<char>>
    decreases s.len(),
{
    if s.len() == 0 {
        Seq::empty()
    } else {
        match find_char(s, '\n') {
            None => seq![s],
            Some(i) => {
                if 0 <= i < s.len() {
                    let line = s.subrange(0, i);
                    let line = if line.len() > 0 && line.last() == '\r' { line.drop_last() } else { line };
                    seq![line] + lines(s.subrange(i + 1, s.len() as int))
                } else {
                    seq![s]
                }
            },
        }
    }
}

/// Ranges of the lines of `cs[lo..hi]`.
pub fn lines_ranges(cs: &[char], lo: usize, hi: usize) -> (r: Vec<(usize, usize)>)
    requires
        lo <= hi <= cs@.len(),
    ensures
        pieces(cs@, r@) == lines(cs@.subrange(lo as int, hi as int)),
        ranges_within(r@, lo as int, hi as int),
{
    let mut out: Vec<(usize, usize)> = Vec::new();
    let mut start = lo;
    loop
        invariant_except_break
            lo <= start <= hi <= cs@.len(),
            pieces(cs@, out@) + lines(cs@.subrange(start as int, hi as int))
                == lines(cs@.subrange(lo as int, hi as int)),
            ranges_within(out@, lo as int, hi as int),
        ensures
            pieces(cs@, out@) == lines(cs@.subrange(lo as int, hi as int)),
            ranges_within(out@, lo as int, hi as int),
        decreases hi - start,
    {
        let ghost s = cs@.subrange(start as int, hi as int);
        if start == hi {
            proof {
                assert(lines(s) == Seq::<Seq<char>>::empty());
                assert(pieces(cs@, out@) + Seq::<Seq<char>>::empty() == pieces(cs@, out@));
            }
            break;
        }
        let ghost old_out = out@;
        let f = find_char_in(cs, start, hi, '\n');
        match f {
            None => {
                proof {
                    assert(lines(s) == seq![s]);
                    assert(pieces(cs@, out@.push((start, hi))) == pieces(cs@, out@).push(s));
                    assert(pieces(cs@, out@).push(s) == pieces(cs@, out@) + seq![s]);
                }
                out.push((start, hi));
                assert(ranges_within(out@, lo as int, hi as int)) by {
                    assert forall|k: int| 0 <= k < out@.len() implies lo <= #[trigger] out@[k].0 <= out@[k].1 <= hi by {
                        if k < out@.len() - 1 {
                            assert(out@[k] == old_out[k]);
                        }
                    }
                }
                break;
            },
            Some(k) => {
                let e = if k > start && cs[k - 1] == '\r' { k - 1 } else { k };
                proof {
                    let i = k - start;
                    let line0 = s.subrange(0, i);
                    assert(line0 == cs@.subrange(start as int, k as int));
                    if k > start && cs@[k - 1] == '\r' {
                        assert(line0.last() == '\r');
                        assert(line0.drop_last() == cs@.subrange(start as int, e as int));
                    }
                    assert(s.subrange(i + 1, s.len() as int) == cs@.subrange(k + 1, hi as int));
                    assert(lines(s) == seq![cs@.subrange(start as int, e as int)]
                        + lines(cs@.subrange(k + 1, hi as int)));
                    assert(pieces(cs@, out@.push((start, e))) == pieces(cs@, out@).push(cs@.subrange(start as int, e as int)));
                    assert(pieces(cs@, out@).push(cs@.subrange(start as int, e as int))
                        + lines(cs@.subrange(k + 1, hi as int))
                        == pieces(cs@, out@) + (seq![cs@.subrange(start as int, e as int)]
                        + lines(cs@.subrange(k + 1, hi as int))));
                }
                out.push((start, e));
                start = k + 1;
            },
        }
    }
    out
}

} // verus!
