//! Building strings: appending characters and text, and writing integers in
//! decimal or hexadecimal.

use vstd::prelude::*;
use vstd::string::StringExecFns;

verus! {

broadcast use vstd::string::group_string_axioms;

/// `String::push`: appends the character `c` at the end of `s`.
#[verifier::external_body]
pub(crate) fn push_char(s: &mut String, c: char)
    ensures
        final(s)@ == old(s)@.push(c),
{
    s.push(c);
}

/// Append the text `t` at the end of `s`.
pub fn push_str(s: &mut String, t: &str)
    ensures
        final(s)@ == old(s)@ + t@,
{
    s.append(t);
}

/// The owned string holding the characters `cs[lo..hi]`.
pub fn string_of_range(cs: &[char], lo: usize, hi: usize) -> (r: String)
    requires
        lo <= hi <= cs@.len(),
    ensures
        r@ == cs@.subrange(lo as int, hi as int),
{
    let mut out = String::new();
    let mut i: usize = lo;
    while i < hi
        invariant
            lo <= i <= hi <= cs@.len(),
            out@ == cs@.subrange(lo as int, i as int),
        decreases hi - i,
    {
        push_char(&mut out, cs[i]);
        assert(cs@.subrange(lo as int, i + 1) == cs@.subrange(lo as int, i as int).push(cs@[i as int]));
        i = i + 1;
    }
    out
}

/// The character written for the digit value `d` (`0`-`9`, then `a`-`f`).
pub open spec fn digit_char(d: int) -> char {
    seq!['0', '1', '2', '3', '4', '5', '6', '7', '8', '9', 'a', 'b', 'c', 'd', 'e', 'f'][d]
}

/// The digits of `n` in base `radix`, most significant first, without leading zeros
/// (`0` is written as one digit).
pub open spec fn radix_digits(n: nat, radix: nat) -> Seq<char>
    decreases n,
{
    if radix < 2 || n < radix {
        seq![digit_char(n as int)]
    } else {
        proof {
            assert(n / radix < n) by (nonlinear_arith)
                requires
                    n >= radix,
                    radix >= 2,
            ;
        }
        radix_digits(n / radix, radix).push(digit_char((n % radix) as int))
    }
}

/// Decimal text of an integer, with a leading `-` when it is negative.
pub open spec fn signed_decimal(i: int) -> Seq<char> {
    if i < 0 {
        seq!['-'] + radix_digits((-i) as nat, 10)
    } else {
        radix_digits(i as nat, 10)
    }
}

fn digit_of_value(d: u64) -> (c: char)
    requires
        d < 16,
    ensures
        c == digit_char(d as int),
{
    let table = ['0', '1', '2', '3', '4', '5', '6', '7', '8', '9', 'a', 'b', 'c', 'd', 'e', 'f'];
    assert(table@ =~= seq!['0', '1', '2', '3', '4', '5', '6', '7', '8', '9', 'a', 'b', 'c', 'd', 'e', 'f']);
    table[d as usize]
}

/// Append the digits of `n` in base `radix` to `out`.
pub fn push_radix(out: &mut String, n: u64, radix: u64)
    requires
        2 <= radix <= 16,
    ensures
        final(out)@ == old(out)@ + radix_digits(n as nat, radix as nat),
    decreases n,
{
    if n < radix {
        push_char(out, digit_of_value(n));
    } else {
        assert(n / radix < n) by (nonlinear_arith)
            requires
                n >= radix,
                radix >= 2,
        ;
        push_radix(out, n / radix, radix);
        push_char(out, digit_of_value(n % radix));
        assert(radix_digits(n as nat, radix as nat) == radix_digits((n / radix) as nat, radix as nat).push(
            digit_char((n % radix) as int),
        ));
    }
}

/// Append the decimal text of `n` to `out`.
pub fn push_decimal_i64(out: &mut String, n: i64)
    ensures
        final(out)@ == old(out)@ + signed_decimal(n as int),
{
    if n < 0 {
        push_char(out, '-');
        let m: u64 = ((-(n + 1)) as u64) + 1;
        push_radix(out, m, 10);
        assert(old(out)@.push('-') + radix_digits(m as nat, 10) == old(out)@ + (seq!['-'] + radix_digits(m as nat, 10)));
    } else {
        push_radix(out, n as u64, 10);
    }
}

/// Decimal text of an unsigned integer.
pub fn decimal_u64(n: u64) -> (r: String)
    ensures
        r@ == radix_digits(n as nat, 10),
{
    let mut out = String::new();
    push_radix(&mut out, n, 10);
    out
}

/// Decimal text of a signed integer.
pub fn decimal_i64(n: i64) -> (r: String)
    ensures
        r@ == signed_decimal(n as int),
{
    let mut out = String::new();
    push_decimal_i64(&mut out, n);
    out
}

} // verus!
