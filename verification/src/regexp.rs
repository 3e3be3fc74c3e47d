//! The `regexp` package of the standard library: matching, finding, replacing and
//! splitting with regular expressions. Patterns are compiled by the `regex` crate;
//! an invalid pattern makes each operation give its documented fallback.

use vstd::prelude::*;
use regex::Regex;

verus! {

broadcast use vstd::string::group_string_axioms;

#[verifier::external_type_specification]
#[verifier::external_body]
pub struct ExRegex(Regex);

/// `Regex::new(pattern)` succeeds.
pub uninterp spec fn regex_compiles(pattern: Seq<char>) -> bool;

/// `is_match`: the pattern matches somewhere in the haystack.
pub uninterp spec fn regex_is_match(pattern: Seq<char>, haystack: Seq<char>) -> bool;

/// `find`: the leftmost-first match, as its byte offsets and its text.
pub uninterp spec fn regex_find(pattern: Seq<char>, haystack: Seq<char>) -> Option<(int, int, Seq<char>)>;

/// `find_iter`: the texts of the successive non-overlapping matches.
pub uninterp spec fn regex_find_all(pattern: Seq<char>, haystack: Seq<char>) -> Seq<Seq<char>>;

/// `replace_all` with a replacement string in which `$name` refers to groups.
pub uninterp spec fn regex_replace_all(pattern: Seq<char>, haystack: Seq<char>, repl: Seq<char>) -> Seq<char>;

/// `replace_all` with a replacement taken literally.
pub uninterp spec fn regex_replace_all_literal(pattern: Seq<char>, haystack: Seq<char>, repl: Seq<char>) -> Seq<
    char,
>;

/// `split`: the texts between the matches.
pub uninterp spec fn regex_split(pattern: Seq<char>, haystack: Seq<char>) -> Seq<Seq<char>>;

/// `splitn`: the texts between the first matches, at most `limit` of them.
pub uninterp spec fn regex_splitn(pattern: Seq<char>, haystack: Seq<char>, limit: int) -> Seq<Seq<char>>;

/// `captures`: the texts of the groups of the first match (`None` for a group that
/// did not take part), when there is a match.
pub uninterp spec fn regex_captures(pattern: Seq<char>, haystack: Seq<char>) -> Option<Seq<Option<Seq<char>>>>;

/// A character with a meaning in a regular expression: one of
/// `\ . + * ? ( ) | [ ] { } ^ $ # & - ~`.
pub open spec fn is_meta_char(c: char) -> bool {
    c == '\\' || c == '.' || c == '+' || c == '*' || c == '?' || c == '(' || c == ')'
        || c == '|' || c == '[' || c == ']' || c == '{' || c == '}' || c == '^' || c == '$'
        || c == '#' || c == '&' || c == '-' || c == '~'
}

/// `text` with each meta character preceded by a backslash, every other character
/// copied as it is.
pub open spec fn regex_escape(text: Seq<char>) -> Seq<char>
    decreases text.len(),
{
    if text.len() == 0 {
        Seq::empty()
    } else {
        let c = text.last();
        let head = regex_escape(text.drop_last());
        if is_meta_char(c) {
            head.push('\\').push(c)
        } else {
            head.push(c)
        }
    }
}

/// `std::str::from_utf8`: the text the bytes encode, when they are valid UTF-8.
pub uninterp spec fn utf8_text(bytes: Seq<u8>) -> Option<Seq<char>>;

/// A compiled regular expression, with the pattern it was compiled from.
pub struct Pattern {
    re: Regex,
    source: String,
}

/// The texts of a vector of strings.
pub open spec fn texts(v: Seq<String>) -> Seq<Seq<char>> {
    v.map_values(|x: String| x@)
}

/// `Regex::new`: compiles `pattern`, keeping it with the compiled form; `None`
/// when the pattern is invalid or too large.
#[verifier::external_body]
fn compile(pattern: &str) -> (r: Option<Pattern>)
    ensures
        (r is Some) == regex_compiles(pattern@),
        r matches Some(p) ==> p.source@ == pattern@,
{
    match Regex::new(pattern) {
        Ok(re) => Some(Pattern { re, source: pattern.to_string() }),
        Err(_) => None,
    }
}

/// `Regex::is_match`.
#[verifier::external_body]
fn is_match(p: &Pattern, haystack: &str) -> (r: bool)
    ensures
        r == regex_is_match(p.source@, haystack@),
{
    p.re.is_match(haystack)
}

/// `Regex::find`: the match as its start and end byte offsets and its text.
#[verifier::external_body]
fn find(p: &Pattern, haystack: &str) -> (r: Option<(usize, usize, String)>)
    ensures
        match r {
            Some((s, e, t)) => regex_find(p.source@, haystack@) == Some((s as int, e as int, t@)),
            None => regex_find(p.source@, haystack@) is None,
        },
{
    match p.re.find(haystack) {
        Some(m) => Some((m.start(), m.end(), m.as_str().to_string())),
        None => None,
    }
}

/// `Regex::find_iter`: the texts of all matches.
#[verifier::external_body]
fn find_all(p: &Pattern, haystack: &str) -> (r: Vec<String>)
    ensures
        texts(r@) == regex_find_all(p.source@, haystack@),
{
    p.re.find_iter(haystack).map(|m| m.as_str().to_string()).collect()
}

/// `Regex::replace_all` with an expanding replacement. Its documentation says that
/// without a match the haystack comes back unchanged.
#[verifier::external_body]
fn replace_all(p: &Pattern, haystack: &str, repl: &str) -> (r: String)
    ensures
        r@ == regex_replace_all(p.source@, haystack@, repl@),
        !regex_is_match(p.source@, haystack@) ==> r@ == haystack@,
{
    p.re.replace_all(haystack, repl).into_owned()
}

/// `Regex::replace_all` with `NoExpand`: the replacement is taken literally.
/// Without a match the haystack comes back unchanged.
#[verifier::external_body]
fn replace_all_literal(p: &Pattern, haystack: &str, repl: &str) -> (r: String)
    ensures
        r@ == regex_replace_all_literal(p.source@, haystack@, repl@),
        !regex_is_match(p.source@, haystack@) ==> r@ == haystack@,
{
    p.re.replace_all(haystack, regex::NoExpand(repl)).into_owned()
}

/// `Regex::split`.
#[verifier::external_body]
fn split(p: &Pattern, haystack: &str) -> (r: Vec<String>)
    ensures
        texts(r@) == regex_split(p.source@, haystack@),
{
    p.re.split(haystack).map(|s| s.to_string()).collect()
}

/// `Regex::splitn`: at most `limit` pieces, as its documentation says.
#[verifier::external_body]
fn splitn(p: &Pattern, haystack: &str, limit: usize) -> (r: Vec<String>)
    ensures
        texts(r@) == regex_splitn(p.source@, haystack@, limit as int),
        r@.len() <= limit,
{
    p.re.splitn(haystack, limit).map(|s| s.to_string()).collect()
}

/// `Regex::captures`: the groups of the first match.
#[verifier::external_body]
fn captures(p: &Pattern, haystack: &str) -> (r: Option<Vec<Option<String>>>)
    ensures
        match r {
            Some(groups) => regex_captures(p.source@, haystack@) == Some(
                groups@.map_values(|g: Option<String>| match g {
                    Some(t) => Some(t@),
                    None => None,
                }),
            ),
            None => regex_captures(p.source@, haystack@) is None,
        },
{
    match p.re.captures(haystack) {
        Some(caps) => Some(caps.iter().map(|m| m.map(|m| m.as_str().to_string())).collect()),
        None => None,
    }
}

/// `regex::escape`.
#[verifier::external_body]
fn escape(text: &str) -> (r: String)
    ensures
        r@ == regex_escape(text@),
{
    regex::escape(text)
}

/// `std::str::from_utf8`: the text of the bytes when they are valid UTF-8.
#[verifier::external_body]
fn decode_utf8(bytes: &[u8]) -> (r: Option<&str>)
    ensures
        match r {
            Some(t) => utf8_text(bytes@) == Some(t@),
            None => utf8_text(bytes@) is None,
        },
{
    match std::str::from_utf8(bytes) {
        Ok(t) => Some(t),
        Err(_) => None,
    }
}

// ==================== Matching ====================

/// Whether `pattern` matches somewhere in `s`, and whether the pattern is valid.
pub fn match_string(pattern: &str, s: &str) -> (r: (bool, bool))
    ensures
        r == (if regex_compiles(pattern@) {
            (regex_is_match(pattern@, s@), true)
        } else {
            (false, false)
        }),
{
    match compile(pattern) {
        Some(p) => (is_match(&p, s), true),
        None => (false, false),
    }
}

/// Whether `pattern` matches somewhere in the UTF-8 text `b` (no match when `b` is
/// not UTF-8), and whether the pattern is valid.
pub fn match_bytes(pattern: &str, b: &[u8]) -> (r: (bool, bool))
    ensures
        r == (if !regex_compiles(pattern@) {
            (false, false)
        } else {
            match utf8_text(b@) {
                Some(t) => (regex_is_match(pattern@, t), true),
                None => (false, true),
            }
        }),
{
    match compile(pattern) {
        Some(p) => match decode_utf8(b) {
            Some(t) => (is_match(&p, t), true),
            None => (false, true),
        },
        None => (false, false),
    }
}

// ==================== Find ====================

/// Text of the first match of `pattern` in `s` (empty without a match or with an
/// invalid pattern).
pub fn find_string(pattern: &str, s: &str) -> (r: String)
    ensures
        r@ == (if regex_compiles(pattern@) {
            match regex_find(pattern@, s@) {
                Some((_, _, t)) => t,
                None => Seq::<char>::empty(),
            }
        } else {
            Seq::<char>::empty()
        }),
{
    match compile(pattern) {
        Some(p) => match find(&p, s) {
            Some((_, _, t)) => t,
            None => String::new(),
        },
        None => String::new(),
    }
}

/// The pair of offsets reported for a match, `(-1, -1)` without one.
pub open spec fn index_pair(m: Option<(int, int, Seq<char>)>) -> (i64, i64) {
    match m {
        Some((s, e, _)) => (s as i64, e as i64),
        None => (-1i64, -1i64),
    }
}

/// Byte offsets of the first match of `pattern` in `s`: start and end, or
/// `(-1, -1)` without a match or with an invalid pattern.
pub fn find_string_index(pattern: &str, s: &str) -> (r: (i64, i64))
    ensures
        r == (if regex_compiles(pattern@) {
            index_pair(regex_find(pattern@, s@))
        } else {
            (-1i64, -1i64)
        }),
{
    match compile(pattern) {
        Some(p) => match find(&p, s) {
            Some((st, en, _)) => (st as i64, en as i64),
            None => (-1, -1),
        },
        None => (-1, -1),
    }
}

/// The first `n` of a list of matches: all of them for a negative `n`, none for 0.
pub open spec fn limit_spec(all: Seq<Seq<char>>, n: i64) -> Seq<Seq<char>> {
    if n < 0 {
        all
    } else if n as int >= all.len() {
        all
    } else {
        all.take(n as int)
    }
}

/// Keep the first `n` matches: all of them when `n` is negative, none when it is 0.
pub fn limit_matches(all: Vec<String>, n: i64) -> (r: Vec<String>)
    ensures
        texts(r@) == limit_spec(texts(all@), n),
{
    if n < 0 {
        return all;
    }
    let mut out: Vec<String> = Vec::new();
    let mut i: usize = 0;
    while i < all.len() && (i as i64) < n
        invariant
            0 <= i <= all@.len(),
            0 <= n,
            i <= n,
            texts(out@) == texts(all@).take(i as int),
        decreases all.len() - i,
    {
        let c = all[i].clone();
        assert(c@ == all@[i as int]@);
        let ghost before = out@;
        out.push(c);
        assert(out@ == before.push(c));
        assert(texts(out@) =~= texts(before).push(c@));
        assert(texts(all@).take(i + 1) =~= texts(all@).take(i as int).push(all@[i as int]@));
        i = i + 1;
    }
    assert(texts(all@).take(all@.len() as int) =~= texts(all@));
    out
}

/// Texts of the matches of `pattern` in `s`: all when `n` is negative, the first `n`
/// otherwise; none with an invalid pattern.
pub fn find_all_string(pattern: &str, s: &str, n: i64) -> (r: Vec<String>)
    ensures
        texts(r@) == (if regex_compiles(pattern@) && n != 0 {
            limit_spec(regex_find_all(pattern@, s@), n)
        } else {
            Seq::<Seq<char>>::empty()
        }),
{
    match compile(pattern) {
        Some(p) => {
            if n == 0 {
                let v: Vec<String> = Vec::new();
                assert(texts(v@) =~= Seq::<Seq<char>>::empty());
                v
            } else {
                limit_matches(find_all(&p, s), n)
            }
        },
        None => {
            let v: Vec<String> = Vec::new();
            assert(texts(v@) =~= Seq::<Seq<char>>::empty());
            v
        },
    }
}

// ==================== Replace ====================

/// `src` with every match of `pattern` replaced by `repl` (in which `$name` refers to
/// groups); `src` itself with an invalid pattern.
pub fn replace_all_string(pattern: &str, src: &str, repl: &str) -> (r: String)
    ensures
        r@ == (if regex_compiles(pattern@) {
            regex_replace_all(pattern@, src@, repl@)
        } else {
            src@
        }),
        !regex_is_match(pattern@, src@) ==> r@ == src@,
{
    match compile(pattern) {
        Some(p) => replace_all(&p, src, repl),
        None => src.to_owned(),
    }
}

/// `src` with every match of `pattern` replaced by the literal text `repl`; `src`
/// itself with an invalid pattern.
pub fn replace_all_literal_string(pattern: &str, src: &str, repl: &str) -> (r: String)
    ensures
        r@ == (if regex_compiles(pattern@) {
            regex_replace_all_literal(pattern@, src@, repl@)
        } else {
            src@
        }),
        !regex_is_match(pattern@, src@) ==> r@ == src@,
{
    match compile(pattern) {
        Some(p) => replace_all_literal(&p, src, repl),
        None => src.to_owned(),
    }
}

// ==================== Split ====================

/// `s` split around the matches of `pattern`: all pieces when `n` is negative, none
/// when it is 0, at most `n` otherwise; `[s]` with an invalid pattern.
pub fn split_string(pattern: &str, s: &str, n: i64) -> (r: Vec<String>)
    ensures
        texts(r@) == (if !regex_compiles(pattern@) {
            seq![s@]
        } else if n < 0 {
            regex_split(pattern@, s@)
        } else if n == 0 {
            Seq::<Seq<char>>::empty()
        } else {
            regex_splitn(pattern@, s@, n as usize as int)
        }),
{
    match compile(pattern) {
        Some(p) => {
            if n < 0 {
                split(&p, s)
            } else if n == 0 {
                let v: Vec<String> = Vec::new();
                assert(texts(v@) =~= Seq::<Seq<char>>::empty());
                v
            } else {
                splitn(&p, s, n as usize)
            }
        },
        None => {
            let mut v: Vec<String> = Vec::new();
            v.push(s.to_owned());
            assert(texts(v@) =~= seq![s@]);
            v
        },
    }
}

// ==================== Submatch ====================

/// Texts of the groups of a match, empty for a group that did not take part; no
/// texts without a match.
pub open spec fn group_texts(caps: Option<Seq<Option<Seq<char>>>>) -> Seq<Seq<char>> {
    match caps {
        Some(groups) => groups.map_values(|g: Option<Seq<char>>| match g {
            Some(t) => t,
            None => Seq::<char>::empty(),
        }),
        None => Seq::empty(),
    }
}

/// The texts of the groups of a match, empty for a group that did not take part.
pub fn submatch_texts(caps: Option<Vec<Option<String>>>) -> (r: Vec<String>)
    ensures
        texts(r@) == group_texts(
            match caps {
                Some(groups) => Some(
                    groups@.map_values(|g: Option<String>| match g {
                        Some(t) => Some(t@),
                        None => None,
                    }),
                ),
                None => None,
            },
        ),
{
    match caps {
        Some(groups) => {
            let ghost gv = groups@.map_values(|g: Option<String>| match g {
                Some(t) => Some(t@),
                None => None,
            });
            let mut out: Vec<String> = Vec::new();
            let mut i: usize = 0;
            while i < groups.len()
                invariant
                    0 <= i <= groups@.len(),
                    gv == groups@.map_values(|g: Option<String>| match g {
                        Some(t) => Some(t@),
                        None => None,
                    }),
                    texts(out@) == group_texts(Some(gv)).take(i as int),
                decreases groups.len() - i,
            {
                let t = match &groups[i] {
                    Some(t) => t.clone(),
                    None => String::new(),
                };
                assert(gv[i as int] == (match groups@[i as int] {
                    Some(t) => Some(t@),
                    None => None,
                }));
                assert(t@ == group_texts(Some(gv))[i as int]);
                let ghost before = out@;
                out.push(t);
                assert(texts(out@) =~= texts(before).push(group_texts(Some(gv))[i as int]));
                assert(group_texts(Some(gv)).take(i + 1) =~= group_texts(Some(gv)).take(i as int).push(
                    group_texts(Some(gv))[i as int],
                ));
                i = i + 1;
            }
            assert(group_texts(Some(gv)).take(groups@.len() as int) =~= group_texts(Some(gv)));
            out
        },
        None => {
            let v: Vec<String> = Vec::new();
            assert(texts(v@) =~= Seq::<Seq<char>>::empty());
            v
        },
    }
}

/// Texts of the groups of the first match of `pattern` in `s` (the whole match
/// first); none without a match or with an invalid pattern.
pub fn find_string_submatch(pattern: &str, s: &str) -> (r: Vec<String>)
    ensures
        texts(r@) == (if regex_compiles(pattern@) {
            group_texts(regex_captures(pattern@, s@))
        } else {
            Seq::<Seq<char>>::empty()
        }),
{
    match compile(pattern) {
        Some(p) => submatch_texts(captures(&p, s)),
        None => {
            let v: Vec<String> = Vec::new();
            assert(texts(v@) =~= Seq::<Seq<char>>::empty());
            v
        },
    }
}

// ==================== Quote ====================

/// `s` with every regular-expression meta character escaped.
pub fn quote_meta(s: &str) -> (r: String)
    ensures
        r@ == regex_escape(s@),
{
    escape(s)
}

} // verus!
