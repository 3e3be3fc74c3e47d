//! Result tags printed by the command-line runner, which test scripts read to tell
//! how a run ended: `[VO:OK]`, or a tag naming where the error came from, with the
//! message inside the brackets.

use vstd::prelude::*;
use crate::strbuf::{self, push_char, push_radix, push_str};

verus! {

broadcast use vstd::string::group_string_axioms;

/// Tag printed when a run completed without errors.
pub const TAG_OK: &'static str = "[VO:OK]";

/// Prefix of the tag printed when the program panicked.
pub const TAG_PANIC_PREFIX: &'static str = "[VO:PANIC:";

/// Prefix of the tag printed for a compilation or analysis error.
pub const TAG_ERROR_PREFIX: &'static str = "[VO:ERROR:";

/// Where an error came from.
#[derive(Debug, Clone, Copy, PartialEq, Eq, Structural)]
pub enum ErrorKind {
    Parse,
    Check,
    Codegen,
    Panic,
    Io,
}

/// A position in a source file.
#[derive(Debug, Clone)]
pub struct SourceLoc {
    pub file: String,
    pub line: u32,
    pub column: u32,
}

/// `[VO:PANIC:` + message + `]`.
pub open spec fn panic_tag(msg: Seq<char>) -> Seq<char> {
    "[VO:PANIC:"@ + msg + seq![']']
}

/// `[VO:ERROR:` + message + `]`.
pub open spec fn error_tag(msg: Seq<char>) -> Seq<char> {
    "[VO:ERROR:"@ + msg + seq![']']
}

/// Opening of the tag for each kind of error.
pub open spec fn kind_prefix(kind: ErrorKind) -> Seq<char> {
    match kind {
        ErrorKind::Parse => "[VO:PARSE:"@,
        ErrorKind::Check => "[VO:CHECK:"@,
        ErrorKind::Codegen => "[VO:CODEGEN:"@,
        ErrorKind::Panic => "[VO:PANIC:"@,
        ErrorKind::Io => "[VO:IO:"@,
    }
}

/// `file:line:col`.
pub open spec fn loc_text(loc: SourceLoc) -> Seq<char> {
    loc.file@ + seq![':'] + strbuf::radix_digits(loc.line as nat, 10) + seq![':'] + strbuf::radix_digits(
        loc.column as nat,
        10,
    )
}

/// The message, after `file:line:col: ` when there is a location.
pub open spec fn with_loc_text(loc: Option<SourceLoc>, msg: Seq<char>) -> Seq<char> {
    match loc {
        Some(l) => loc_text(l) + ": "@ + msg,
        None => msg,
    }
}

/// `[VO:KIND:` + located message + `]`.
pub open spec fn kind_tag(kind: ErrorKind, loc: Option<SourceLoc>, msg: Seq<char>) -> Seq<char> {
    kind_prefix(kind) + with_loc_text(loc, msg) + seq![']']
}

/// A panic message with the panic tag around it.
pub fn format_panic(msg: &str) -> (r: String)
    ensures
        r@ == panic_tag(msg@),
{
    let mut out = String::new();
    push_str(&mut out, TAG_PANIC_PREFIX);
    push_str(&mut out, msg);
    push_char(&mut out, ']');
    out
}

/// An error message with the error tag around it.
pub fn format_error(msg: &str) -> (r: String)
    ensures
        r@ == error_tag(msg@),
{
    let mut out = String::new();
    push_str(&mut out, TAG_ERROR_PREFIX);
    push_str(&mut out, msg);
    push_char(&mut out, ']');
    out
}

impl ErrorKind {
    /// Opening of the tag for this kind of error.
    pub fn tag_prefix(self) -> (r: &'static str)
        ensures
            r@ == kind_prefix(self),
    {
        match self {
            ErrorKind::Parse => "[VO:PARSE:",
            ErrorKind::Check => "[VO:CHECK:",
            ErrorKind::Codegen => "[VO:CODEGEN:",
            ErrorKind::Panic => "[VO:PANIC:",
            ErrorKind::Io => "[VO:IO:",
        }
    }
}

impl SourceLoc {
    /// `file:line:col`.
    pub fn to_text(&self) -> (r: String)
        ensures
            r@ == loc_text(*self),
    {
        let mut out = String::new();
        push_str(&mut out, self.file.as_str());
        push_char(&mut out, ':');
        push_radix(&mut out, self.line as u64, 10);
        push_char(&mut out, ':');
        push_radix(&mut out, self.column as u64, 10);
        out
    }
}

fn push_with_loc(out: &mut String, loc: Option<&SourceLoc>, msg: &str)
    ensures
        final(out)@ == old(out)@ + with_loc_text(
            match loc {
                Some(l) => Some(*l),
                None => None,
            },
            msg@,
        ),
{
    match loc {
        Some(l) => {
            let t = l.to_text();
            push_str(out, t.as_str());
            push_str(out, ": ");
            push_str(out, msg);
            proof {
                reveal_strlit(": ");
            }
        },
        None => push_str(out, msg),
    }
}

/// A message with optional location, as `file:line:col: message`.
pub fn format_with_loc(loc: Option<&SourceLoc>, msg: &str) -> (r: String)
    ensures
        r@ == with_loc_text(
            match loc {
                Some(l) => Some(*l),
                None => None,
            },
            msg@,
        ),
{
    let mut out = String::new();
    push_with_loc(&mut out, loc, msg);
    out
}

/// An error tag naming the kind of error: `[VO:KIND:file:line:col: message]`.
pub fn format_tag(kind: ErrorKind, loc: Option<&SourceLoc>, msg: &str) -> (r: String)
    ensures
        r@ == kind_tag(
            kind,
            match loc {
                Some(l) => Some(*l),
                None => None,
            },
            msg@,
        ),
{
    let mut out = String::new();
    push_str(&mut out, kind.tag_prefix());
    push_with_loc(&mut out, loc, msg);
    push_char(&mut out, ']');
    out
}

} // verus!
