//! What the launcher compiles, told from the name of its input: a source file, a
//! zip archive (optionally with a root inside it, as `archive.zip:dir`), compiled
//! bytecode or a directory; and the errors of compilation and of extension loading.

use vstd::prelude::*;
use crate::strbuf::{self, push_radix, push_str, string_of_range};
use crate::text::{self, chars_of};

verus! {

broadcast use vstd::string::group_string_axioms;

#[verifier::external_type_specification]
#[verifier::external_body]
pub struct ExIoError(std::io::Error);

/// The text of an I/O error, as its `Display` writes it. What the text says depends
/// on the operating system, so nothing is stated of it.
#[verifier::external_body]
fn io_error_text(e: &std::io::Error) -> String {
    e.to_string()
}

/// `archive.zip` alone, or `archive.zip:root` with the root inside the archive.
pub open spec fn zip_path_spec(file: Seq<char>) -> Option<(Seq<char>, Option<Seq<char>>)> {
    if text::ends_with(file, ".zip"@) {
        Some((file, None))
    } else {
        match text::find_seq(file, ".zip:"@) {
            Some(i) => Some((file.subrange(0, i) + ".zip"@, Some(file.subrange(i + 5, file.len() as int)))),
            None => None,
        }
    }
}

/// Split an input name into a zip archive and an optional root inside it.
pub fn parse_zip_path(file: &str) -> (r: Option<(String, Option<String>)>)
    ensures
        match r {
            Some((zip, root)) => zip_path_spec(file@) == Some(
                (
                    zip@,
                    match root {
                        Some(t) => Some(t@),
                        None => None,
                    },
                ),
            ),
            None => zip_path_spec(file@) is None,
        },
{
    let cs = chars_of(file);
    let n = cs.len();
    let zip = ['.', 'z', 'i', 'p'];
    let zip_colon = ['.', 'z', 'i', 'p', ':'];
    proof {
        reveal_strlit(".zip");
        reveal_strlit(".zip:");
    }
    assert(zip@ == ".zip"@);
    assert(zip_colon@ == ".zip:"@);
    assert(cs@.subrange(0, n as int) == file@);
    if text::range_ends_with(cs.as_slice(), 0, n, &zip) {
        let whole = string_of_range(cs.as_slice(), 0, n);
        return Some((whole, None));
    }
    match text::find_seq_in(cs.as_slice(), 0, n, &zip_colon) {
        Some(i) => {
            let mut archive = string_of_range(cs.as_slice(), 0, i);
            push_str(&mut archive, ".zip");
            let root = string_of_range(cs.as_slice(), i + 5, n);
            Some((archive, Some(root)))
        },
        None => None,
    }
}

/// What an input of the launcher is.
#[derive(Debug, PartialEq, Eq)]
pub enum SourceKind {
    /// A source file (also the choice for a name that says nothing else).
    SourceFile,
    /// A zip archive, with an optional root inside it.
    Zip(String, Option<String>),
    /// Compiled bytecode (`.voc` or `.vob`).
    Bytecode,
    /// A directory of sources.
    Directory,
}

/// The kind of an input: `.vo` names a source file, then a zip path, then `.voc`
/// and `.vob` name bytecode; otherwise a directory when it is one, else a source file.
pub open spec fn source_kind_spec(file: Seq<char>, is_dir: bool) -> SourceKind {
    if text::ends_with(file, ".vo"@) {
        SourceKind::SourceFile
    } else if zip_path_spec(file) is Some {
        SourceKind::SourceFile
    } else if text::ends_with(file, ".voc"@) || text::ends_with(file, ".vob"@) {
        SourceKind::Bytecode
    } else if is_dir {
        SourceKind::Directory
    } else {
        SourceKind::SourceFile
    }
}

/// Tell what an input is from its name; `is_dir` says whether it names a directory.
pub fn classify_source(file: &str, is_dir: bool) -> (r: SourceKind)
    ensures
        zip_path_spec(file@) is Some && !text::ends_with(file@, ".vo"@) ==> (r matches SourceKind::Zip(z, root)
            && zip_path_spec(file@) == Some(
            (
                z@,
                match root {
                    Some(t) => Some(t@),
                    None => None,
                },
            ),
        )),
        !(zip_path_spec(file@) is Some && !text::ends_with(file@, ".vo"@)) ==> r == source_kind_spec(file@, is_dir),
{
    let cs = chars_of(file);
    let n = cs.len();
    let vo = ['.', 'v', 'o'];
    let voc = ['.', 'v', 'o', 'c'];
    let vob = ['.', 'v', 'o', 'b'];
    proof {
        reveal_strlit(".vo");
        reveal_strlit(".voc");
        reveal_strlit(".vob");
    }
    assert(vo@ == ".vo"@);
    assert(voc@ == ".voc"@);
    assert(vob@ == ".vob"@);
    assert(cs@.subrange(0, n as int) == file@);
    if text::range_ends_with(cs.as_slice(), 0, n, &vo) {
        return SourceKind::SourceFile;
    }
    match parse_zip_path(file) {
        Some((zip, root)) => {
            return SourceKind::Zip(zip, root);
        },
        None => {},
    }
    if text::range_ends_with(cs.as_slice(), 0, n, &voc) || text::range_ends_with(cs.as_slice(), 0, n, &vob) {
        SourceKind::Bytecode
    } else if is_dir {
        SourceKind::Directory
    } else {
        SourceKind::SourceFile
    }
}

/// An error of compilation.
#[derive(Debug)]
pub enum CompileError {
    Io(std::io::Error),
    Parse(String),
    Analysis(String),
    Codegen(String),
}

impl CompileError {
    /// The error message: the stage, then the detail.
    pub fn message(&self) -> (r: String)
        ensures
            match self {
                CompileError::Io(_) => text::starts_with(r@, "IO error: "@),
                CompileError::Parse(e) => r@ == "Parse error: "@ + e@,
                CompileError::Analysis(e) => r@ == "Analysis error: "@ + e@,
                CompileError::Codegen(e) => r@ == "Codegen error: "@ + e@,
            },
    {
        let mut out = String::new();
        match self {
            CompileError::Io(e) => {
                push_str(&mut out, "IO error: ");
                let t = io_error_text(e);
                let ghost head = out@;
                push_str(&mut out, t.as_str());
                proof {
                    reveal_strlit("IO error: ");
                    assert(out@.subrange(0, head.len() as int) == head);
                }
            },
            CompileError::Parse(e) => {
                push_str(&mut out, "Parse error: ");
                push_str(&mut out, e.as_str());
            },
            CompileError::Analysis(e) => {
                push_str(&mut out, "Analysis error: ");
                push_str(&mut out, e.as_str());
            },
            CompileError::Codegen(e) => {
                push_str(&mut out, "Codegen error: ");
                push_str(&mut out, e.as_str());
            },
        }
        out
    }
}

/// Version of the interface between the runtime and native extensions.
pub const ABI_VERSION: u32 = 1;

/// An error of extension loading.
#[derive(Debug)]
pub enum ExtError {
    /// The library could not be loaded.
    LoadFailed(String),
    /// The library has no entry point.
    MissingEntryPoint,
    /// The library was built for another interface version.
    VersionMismatch { expected: u32, found: u32 },
    /// The extension manifest could not be read.
    ManifestError(String),
    Io(std::io::Error),
}

impl ExtError {
    /// The error message.
    pub fn message(&self) -> (r: String)
        ensures
            match self {
                ExtError::LoadFailed(m) => r@ == "failed to load extension: "@ + m@,
                ExtError::MissingEntryPoint => r@ == "extension missing vo_ext_get_entries"@,
                ExtError::VersionMismatch { expected, found } => r@ == "ABI version mismatch: expected "@
                    + strbuf::radix_digits(*expected as nat, 10) + ", found "@ + strbuf::radix_digits(
                    *found as nat,
                    10,
                ),
                ExtError::ManifestError(m) => r@ == "manifest error: "@ + m@,
                ExtError::Io(_) => text::starts_with(r@, "IO error: "@),
            },
    {
        let mut out = String::new();
        match self {
            ExtError::LoadFailed(m) => {
                push_str(&mut out, "failed to load extension: ");
                push_str(&mut out, m.as_str());
            },
            ExtError::MissingEntryPoint => {
                push_str(&mut out, "extension missing vo_ext_get_entries");
            },
            ExtError::VersionMismatch { expected, found } => {
                push_str(&mut out, "ABI version mismatch: expected ");
                push_radix(&mut out, *expected as u64, 10);
                push_str(&mut out, ", found ");
                push_radix(&mut out, *found as u64, 10);
            },
            ExtError::ManifestError(m) => {
                push_str(&mut out, "manifest error: ");
                push_str(&mut out, m.as_str());
            },
            ExtError::Io(e) => {
                push_str(&mut out, "IO error: ");
                let t = io_error_text(e);
                let ghost head = out@;
                push_str(&mut out, t.as_str());
                proof {
                    reveal_strlit("IO error: ");
                    assert(out@.subrange(0, head.len() as int) == head);
                }
            },
        }
        out
    }
}

/// An extension built for interface version `found` can be used only when that is
/// this runtime's version.
pub fn check_abi_version(found: u32) -> (r: Result<(), ExtError>)
    ensures
        found == ABI_VERSION ==> r is Ok,
        found != ABI_VERSION ==> (r matches Err(ExtError::VersionMismatch { expected, found: f }) && expected
            == ABI_VERSION && f == found),
{
    if found != ABI_VERSION {
        Err(ExtError::VersionMismatch { expected: ABI_VERSION, found })
    } else {
        Ok(())
    }
}

} // verus!
