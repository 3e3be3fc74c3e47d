//! The `bytes` standard package: comparison, search, case conversion and repetition
//! on byte slices.

use vstd::prelude::*;

verus! {

// ==================== Specifications ====================

/// Lexicographic three-way comparison of byte sequences: -1, 0 or 1.
pub open spec fn lex_order(a: Seq<u8>, b: Seq<u8>) -> int
    decreases a.len(),
{
    if a.len() == 0 {
        if b.len() == 0 { 0 } else { -1 }
    } else if b.len() == 0 {
        1
    } else if a[0] < b[0] {
        -1
    } else if a[0] > b[0] {
        1
    } else {
        lex_order(a.drop_first(), b.drop_first())
    }
}

/// `sep` occurs in `s` starting at position `i`.
pub open spec fn matches_at(s: Seq<u8>, sep: Seq<u8>, i: int) -> bool {
    &&& 0 <= i
    &&& i + sep.len() <= s.len()
    &&& s.subrange(i, i + sep.len()) == sep
}

/// Number of non-overlapping occurrences of a non-empty `sep` in `s[start..]`,
/// scanning from left to right and skipping past each occurrence found.
pub open spec fn count_from(s: Seq<u8>, sep: Seq<u8>, start: int) -> nat
    decreases s.len() - start,
{
    if sep.len() == 0 || start < 0 || start + sep.len() > s.len() {
        0
    } else if matches_at(s, sep, start) {
        1 + count_from(s, sep, start + sep.len())
    } else {
        count_from(s, sep, start + 1)
    }
}

/// ASCII lower-casing of one byte.
pub open spec fn ascii_lower(b: u8) -> u8 {
    if 65 <= b <= 90 { (b + 32) as u8 } else { b }
}

/// ASCII upper-casing of one byte.
pub open spec fn ascii_upper(b: u8) -> u8 {
    if 97 <= b <= 122 { (b - 32) as u8 } else { b }
}

/// `s` repeated `n` times.
pub open spec fn repeat_seq(s: Seq<u8>, n: nat) -> Seq<u8>
    decreases n,
{
    if n == 0 { Seq::empty() } else { repeat_seq(s, (n - 1) as nat) + s }
}

// ==================== Comparison ====================

/// Whether two byte slices hold the same bytes.
pub fn equal(a: &[u8], b: &[u8]) -> (r: bool)
    ensures
        r == (a@ == b@),
{
    if a.len() != b.len() {
        return false;
    }
    let mut i: usize = 0;
    while i < a.len()
        invariant
            a.len() == b.len(),
            0 <= i <= a.len(),
            a@.take(i as int) == b@.take(i as int),
        decreases a.len() - i,
    {
        if a[i] != b[i] {
            assert(a@[i as int] != b@[i as int]);
            return false;
        }
        assert(a@.take(i + 1) == a@.take(i as int).push(a@[i as int]));
        assert(b@.take(i + 1) == b@.take(i as int).push(b@[i as int]));
        i = i + 1;
    }
    assert(a@ == a@.take(a.len() as int));
    assert(b@ == b@.take(b.len() as int));
    true
}

proof fn lemma_lex_order_skip(a: Seq<u8>, b: Seq<u8>, i: int)
    requires
        0 <= i < a.len(),
        i < b.len(),
        a[i] == b[i],
    ensures
        lex_order(a.skip(i), b.skip(i)) == lex_order(a.skip(i + 1), b.skip(i + 1)),
{
    assert(a.skip(i).drop_first() == a.skip(i + 1));
    assert(b.skip(i).drop_first() == b.skip(i + 1));
}

/// Lexicographic comparison: -1 if `a < b`, 0 if equal, 1 if `a > b`.
pub fn compare(a: &[u8], b: &[u8]) -> (r: i64)
    ensures
        r == lex_order(a@, b@),
{
    let mut i: usize = 0;
    assert(a@.skip(0) == a@ && b@.skip(0) == b@);
    while i < a.len() && i < b.len()
        invariant
            0 <= i <= a.len(),
            i <= b.len(),
            lex_order(a@, b@) == lex_order(a@.skip(i as int), b@.skip(i as int)),
        decreases a.len() - i,
    {
        if a[i] < b[i] {
            return -1;
        }
        if a[i] > b[i] {
            return 1;
        }
        proof { lemma_lex_order_skip(a@, b@, i as int); }
        i = i + 1;
    }
    if i < a.len() {
        1
    } else if i < b.len() {
        -1
    } else {
        0
    }
}

// ==================== Search ====================

fn matches_at_exec(s: &[u8], sep: &[u8], i: usize) -> (r: bool)
    requires
        i + sep.len() <= s.len(),
    ensures
        r == matches_at(s@, sep@, i as int),
{
    let mut j: usize = 0;
    while j < sep.len()
        invariant
            i + sep.len() <= s.len(),
            0 <= j <= sep.len(),
            forall|k: int| 0 <= k < j ==> s@[i + k] == sep@[k],
        decreases sep.len() - j,
    {
        if s[i + j] != sep[j] {
            assert(s@.subrange(i as int, i + sep.len())[j as int] != sep@[j as int]);
            return false;
        }
        j = j + 1;
    }
    assert(s@.subrange(i as int, i + sep.len()) =~= sep@);
    true
}

/// Index of the first occurrence of `sep` in `s`; 0 when `sep` is empty; -1 when absent.
pub fn index(s: &[u8], sep: &[u8]) -> (r: i64)
    requires
        s.len() <= i64::MAX,
    ensures
        sep.len() == 0 ==> r == 0,
        r == -1 || matches_at(s@, sep@, r as int),
        r == -1 ==> forall|i: int| !#[trigger] matches_at(s@, sep@, i),
        r >= 0 ==> forall|i: int| 0 <= i < r ==> !#[trigger] matches_at(s@, sep@, i),
{
    if sep.len() == 0 {
        assert(s@.subrange(0, 0) =~= sep@);
        return 0;
    }
    if sep.len() > s.len() {
        return -1;
    }
    let last = s.len() - sep.len();
    let mut i: usize = 0;
    while i <= last
        invariant
            sep.len() > 0,
            last == s.len() - sep.len(),
            s.len() <= i64::MAX,
            0 <= i <= last + 1,
            forall|k: int| 0 <= k < i ==> !#[trigger] matches_at(s@, sep@, k),
        decreases last + 1 - i,
    {
        if matches_at_exec(s, sep, i) {
            return i as i64;
        }
        i = i + 1;
    }
    -1
}

/// Index of the last occurrence of `sep` in `s`; `len(s)` when `sep` is empty; -1 when absent.
pub fn last_index(s: &[u8], sep: &[u8]) -> (r: i64)
    requires
        s.len() <= i64::MAX,
    ensures
        sep.len() == 0 ==> r == s.len(),
        r == -1 || matches_at(s@, sep@, r as int),
        r == -1 ==> forall|i: int| !#[trigger] matches_at(s@, sep@, i),
        r >= 0 ==> forall|i: int| r < i ==> !#[trigger] matches_at(s@, sep@, i),
{
    if sep.len() == 0 {
        assert(s@.subrange(s.len() as int, s.len() as int) =~= sep@);
        return s.len() as i64;
    }
    if sep.len() > s.len() {
        return -1;
    }
    let mut i: usize = s.len() - sep.len() + 1;
    while i > 0
        invariant
            sep.len() > 0,
            sep.len() <= s.len(),
            s.len() <= i64::MAX,
            0 <= i <= s.len() - sep.len() + 1,
            forall|k: int| i <= k ==> !#[trigger] matches_at(s@, sep@, k),
        decreases i,
    {
        if matches_at_exec(s, sep, i - 1) {
            return (i - 1) as i64;
        }
        i = i - 1;
    }
    -1
}

/// Index of the first byte equal to `c`, or -1.
pub fn index_byte(s: &[u8], c: u8) -> (r: i64)
    requires
        s.len() <= i64::MAX,
    ensures
        -1 <= r < s.len(),
        r >= 0 ==> s@[r as int] == c && forall|i: int| 0 <= i < r ==> s@[i] != c,
        r == -1 ==> forall|i: int| 0 <= i < s.len() ==> s@[i] != c,
{
    let mut i: usize = 0;
    while i < s.len()
        invariant
            0 <= i <= s.len(),
            s.len() <= i64::MAX,
            forall|k: int| 0 <= k < i ==> s@[k] != c,
        decreases s.len() - i,
    {
        if s[i] == c {
            return i as i64;
        }
        i = i + 1;
    }
    -1
}

/// Index of the last byte equal to `c`, or -1.
pub fn last_index_byte(s: &[u8], c: u8) -> (r: i64)
    requires
        s.len() <= i64::MAX,
    ensures
        -1 <= r < s.len(),
        r >= 0 ==> s@[r as int] == c && forall|i: int| r < i < s.len() ==> s@[i] != c,
        r == -1 ==> forall|i: int| 0 <= i < s.len() ==> s@[i] != c,
{
    let mut i: usize = s.len();
    while i > 0
        invariant
            0 <= i <= s.len(),
            s.len() <= i64::MAX,
            forall|k: int| i <= k < s.len() ==> s@[k] != c,
        decreases i,
    {
        if s[i - 1] == c {
            return (i - 1) as i64;
        }
        i = i - 1;
    }
    -1
}

proof fn lemma_count_from_bound(s: Seq<u8>, sep: Seq<u8>, start: int)
    requires
        sep.len() > 0,
        0 <= start <= s.len(),
    ensures
        count_from(s, sep, start) <= s.len() - start,
    decreases s.len() - start,
{
    if start + sep.len() > s.len() {
    } else if matches_at(s, sep, start) {
        lemma_count_from_bound(s, sep, start + sep.len());
    } else {
        lemma_count_from_bound(s, sep, start + 1);
    }
}

/// Number of non-overlapping occurrences of `sep` in `s`; `len(s) + 1` when `sep` is empty.
pub fn count(s: &[u8], sep: &[u8]) -> (r: i64)
    requires
        s.len() < i64::MAX,
    ensures
        sep.len() == 0 ==> r == s.len() + 1,
        sep.len() > 0 ==> r == count_from(s@, sep@, 0),
{
    if sep.len() == 0 {
        return (s.len() as i64) + 1;
    }
    let mut count: i64 = 0;
    let mut start: usize = 0;
    while sep.len() <= s.len() - start
        invariant
            sep.len() > 0,
            s.len() < i64::MAX,
            0 <= start <= s.len(),
            count + count_from(s@, sep@, start as int) == count_from(s@, sep@, 0),
            0 <= count <= start,
        decreases s.len() - start,
    {
        proof { lemma_count_from_bound(s@, sep@, start as int); }
        if matches_at_exec(s, sep, start) {
            count = count + 1;
            start = start + sep.len();
        } else {
            start = start + 1;
        }
    }
    count
}

// ==================== Case conversion ====================

/// ASCII lower-case copy of `s`.
pub fn to_lower(s: &[u8]) -> (r: Vec<u8>)
    ensures
        r@ == s@.map_values(|b: u8| ascii_lower(b)),
{
    let mut r: Vec<u8> = Vec::new();
    let mut i: usize = 0;
    while i < s.len()
        invariant
            0 <= i <= s.len(),
            r@ == s@.take(i as int).map_values(|b: u8| ascii_lower(b)),
        decreases s.len() - i,
    {
        let b = s[i];
        let l = if 65 <= b && b <= 90 { b + 32 } else { b };
        r.push(l);
        assert(s@.take(i + 1) == s@.take(i as int).push(b));
        i = i + 1;
    }
    assert(s@.take(s.len() as int) == s@);
    r
}

/// ASCII upper-case copy of `s`.
pub fn to_upper(s: &[u8]) -> (r: Vec<u8>)
    ensures
        r@ == s@.map_values(|b: u8| ascii_upper(b)),
{
    let mut r: Vec<u8> = Vec::new();
    let mut i: usize = 0;
    while i < s.len()
        invariant
            0 <= i <= s.len(),
            r@ == s@.take(i as int).map_values(|b: u8| ascii_upper(b)),
        decreases s.len() - i,
    {
        let b = s[i];
        let u = if 97 <= b && b <= 122 { b - 32 } else { b };
        r.push(u);
        assert(s@.take(i + 1) == s@.take(i as int).push(b));
        i = i + 1;
    }
    assert(s@.take(s.len() as int) == s@);
    r
}

// ==================== Repetition ====================

proof fn lemma_repeat_len(s: Seq<u8>, n: nat)
    ensures
        repeat_seq(s, n).len() == s.len() * n,
    decreases n,
{
    if n > 0 {
        let m = (n - 1) as nat;
        lemma_repeat_len(s, m);
        assert(repeat_seq(s, n) == repeat_seq(s, m) + s);
        assert(s.len() * n == s.len() * m + s.len()) by (nonlinear_arith)
            requires
                m == n - 1,
        ;
    } else {
        assert(s.len() * n == 0) by (nonlinear_arith)
            requires
                n == 0,
        ;
    }
}

/// `s` repeated `count` times; empty when `count <= 0`.
pub fn repeat(s: &[u8], count: i64) -> (r: Vec<u8>)
    requires
        count > 0 ==> count <= usize::MAX && s.len() * count <= usize::MAX,
    ensures
        count <= 0 ==> r@.len() == 0,
        count > 0 ==> r@ == repeat_seq(s@, count as nat),
{
    if count <= 0 {
        return Vec::new();
    }
    let n = count as usize;
    let mut r: Vec<u8> = Vec::new();
    let mut k: usize = 0;
    while k < n
        invariant
            0 <= k <= n,
            n == count,
            s.len() * n <= usize::MAX,
            r@ == repeat_seq(s@, k as nat),
        decreases n - k,
    {
        proof {
            lemma_repeat_len(s@, k as nat);
            assert(s.len() * k <= s.len() * n) by (nonlinear_arith)
                requires k <= n;
        }
        let ghost before = r@;
        let mut j: usize = 0;
        while j < s.len()
            invariant
                0 <= j <= s.len(),
                r@ == before + s@.take(j as int),
            decreases s.len() - j,
        {
            r.push(s[j]);
            assert(s@.take(j + 1) == s@.take(j as int).push(s@[j as int]));
            j = j + 1;
        }
        assert(s@.take(s.len() as int) == s@);
        k = k + 1;
    }
    r
}

// ==================== Laws ====================

/// Comparison is antisymmetric: swapping the operands negates the result.
pub proof fn lemma_compare_antisymmetric(a: Seq<u8>, b: Seq<u8>)
    ensures
        lex_order(a, b) == -lex_order(b, a),
    decreases a.len(),
{
    if a.len() > 0 && b.len() > 0 && a[0] == b[0] {
        lemma_compare_antisymmetric(a.drop_first(), b.drop_first());
    }
}

/// Comparison gives 0 exactly on equal sequences.
pub proof fn lemma_compare_zero_iff_equal(a: Seq<u8>, b: Seq<u8>)
    ensures
        (lex_order(a, b) == 0) <==> (a == b),
    decreases a.len(),
{
    if a.len() > 0 && b.len() > 0 {
        lemma_compare_zero_iff_equal(a.drop_first(), b.drop_first());
        if a[0] == b[0] && a.drop_first() == b.drop_first() {
            assert(a =~= seq![a[0]] + a.drop_first());
            assert(b =~= seq![b[0]] + b.drop_first());
        }
        if a == b {
            assert(a.drop_first() == b.drop_first());
        }
    } else if a.len() == 0 && b.len() == 0 {
        assert(a =~= b);
    }
}

/// Upper-casing then lower-casing a byte is lower-casing it.
pub proof fn lemma_lower_after_upper(b: u8)
    ensures
        ascii_lower(ascii_upper(b)) == ascii_lower(b),
        ascii_upper(ascii_lower(b)) == ascii_upper(b),
{
}

/// `repeat(s, n)` has length `len(s) * n`, and its byte at `i` is `s[i % len(s)]`.
pub proof fn lemma_repeat_shape(s: Seq<u8>, n: nat, i: int)
    requires
        s.len() > 0,
        0 <= i < s.len() * n,
    ensures
        repeat_seq(s, n).len() == s.len() * n,
        repeat_seq(s, n)[i] == s[i % s.len() as int],
    decreases n,
{
    lemma_repeat_len(s, n);
    if n > 0 {
        let prev = repeat_seq(s, (n - 1) as nat);
        lemma_repeat_len(s, (n - 1) as nat);
        if i < s.len() * (n - 1) {
            lemma_repeat_shape(s, (n - 1) as nat, i);
        } else {
            let j = i - s.len() * (n - 1);
            assert(0 <= j < s.len()) by (nonlinear_arith)
                requires
                    s.len() * (n - 1) <= i < s.len() * n,
                    j == i - s.len() * (n - 1),
                    n > 0,
            ;
            assert(i % s.len() as int == j) by (nonlinear_arith)
                requires
                    i == s.len() * (n - 1) + j,
                    0 <= j < s.len(),
                    n > 0,
            ;
        }
    }
}

} // verus!
