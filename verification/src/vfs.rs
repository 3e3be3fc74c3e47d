//! Package resolution: which of the three package sources (standard library, local
//! packages, module cache) answers an import path, and the names derived from paths.
//! Reading the packages from disk is left to the caller.

use vstd::prelude::*;
use std::path::PathBuf;
use crate::text::{self, chars_of};
use crate::strbuf::string_of_range;

verus! {

broadcast use vstd::string::group_string_axioms;

#[verifier::external_type_specification]
#[verifier::external_body]
pub struct ExPathBuf(PathBuf);

/// `PathBuf::clone`: a path equal to `p`.
#[verifier::external_body]
fn clone_path(p: &PathBuf) -> (r: PathBuf)
    ensures
        r == *p,
{
    p.clone()
}

/// The three root directories of package resolution.
#[derive(Debug)]
pub struct ResolverConfig {
    /// Standard library root.
    pub std_root: PathBuf,
    /// Local packages root (the project directory).
    pub local_root: PathBuf,
    /// Module cache root.
    pub mod_root: PathBuf,
}

/// A directory that may hold the standard library when `VO_STD` is not set.
#[derive(Debug, Clone, Copy, PartialEq, Eq, Structural)]
pub enum StdRootCandidate {
    /// `stdlib` under the project directory (0), its parent (1), and so on.
    ProjectAncestor(u32),
    /// The directory `exe_relative_dir(i)` relative to the executable's directory.
    ExeRelative(u32),
}

/// Where the standard library root comes from.
#[derive(Debug, Clone, Copy, PartialEq, Eq, Structural)]
pub enum StdRootChoice {
    /// The `VO_STD` environment variable.
    Env,
    /// The candidate at this position of `std_root_candidates()`.
    Candidate(usize),
    /// `stdlib` under the project directory, though it holds no standard library.
    Fallback,
}

/// The candidate directories, in the order they are tried: `stdlib` under the
/// project directory and its three nearest ancestors, then the four directories
/// relative to the executable.
pub open spec fn std_candidates_spec() -> Seq<StdRootCandidate> {
    seq![
        StdRootCandidate::ProjectAncestor(0),
        StdRootCandidate::ProjectAncestor(1),
        StdRootCandidate::ProjectAncestor(2),
        StdRootCandidate::ProjectAncestor(3),
        StdRootCandidate::ExeRelative(0),
        StdRootCandidate::ExeRelative(1),
        StdRootCandidate::ExeRelative(2),
        StdRootCandidate::ExeRelative(3),
    ]
}

/// The candidate directories for the standard library, in the order they are tried.
pub fn std_root_candidates() -> (r: Vec<StdRootCandidate>)
    ensures
        r@ == std_candidates_spec(),
{
    let r = vec![
        StdRootCandidate::ProjectAncestor(0),
        StdRootCandidate::ProjectAncestor(1),
        StdRootCandidate::ProjectAncestor(2),
        StdRootCandidate::ProjectAncestor(3),
        StdRootCandidate::ExeRelative(0),
        StdRootCandidate::ExeRelative(1),
        StdRootCandidate::ExeRelative(2),
        StdRootCandidate::ExeRelative(3),
    ];
    assert(r@ =~= std_candidates_spec());
    r
}

/// The directories relative to the executable where a standard library may be
/// installed: three development layouts, then the installed one.
pub fn exe_relative_dir(i: u32) -> (r: &'static str)
    requires
        i < 4,
    ensures
        i == 0 ==> r@ == "../../../stdlib"@,
        i == 1 ==> r@ == "../../stdlib"@,
        i == 2 ==> r@ == "../stdlib"@,
        i == 3 ==> r@ == "../lib/vo/stdlib"@,
{
    if i == 0 {
        "../../../stdlib"
    } else if i == 1 {
        "../../stdlib"
    } else if i == 2 {
        "../stdlib"
    } else {
        "../lib/vo/stdlib"
    }
}

/// Choose the standard library root: `VO_STD` when it is set, else the first
/// candidate that holds a standard library (`valid[i]` for the candidate at `i`),
/// else the fallback.
pub fn choose_std_root(env_set: bool, valid: &Vec<bool>) -> (r: StdRootChoice)
    ensures
        env_set ==> r == StdRootChoice::Env,
        !env_set ==> match r {
            StdRootChoice::Env => false,
            StdRootChoice::Candidate(i) => i < valid@.len() && valid@[i as int]
                && forall|j: int| 0 <= j < i ==> !#[trigger] valid@[j],
            StdRootChoice::Fallback => forall|j: int| 0 <= j < valid@.len() ==> !#[trigger] valid@[j],
        },
{
    if env_set {
        return StdRootChoice::Env;
    }
    let mut i: usize = 0;
    while i < valid.len()
        invariant
            !env_set,
            i <= valid@.len(),
            forall|j: int| 0 <= j < i ==> !#[trigger] valid@[j],
        decreases valid@.len() - i,
    {
        if valid[i] {
            return StdRootChoice::Candidate(i);
        }
        i = i + 1;
    }
    StdRootChoice::Fallback
}

/// A package found by the resolver.
#[derive(Debug)]
pub struct VfsPackage {
    /// Package name, such as `fmt` or `mylib`.
    pub name: String,
    /// Import path, such as `fmt`, `./mylib` or `github.com/user/pkg`.
    pub path: String,
    /// The source files of the package.
    pub files: Vec<VfsFile>,
}

/// A source file of a package.
#[derive(Debug)]
pub struct VfsFile {
    /// Path relative to the package directory.
    pub path: PathBuf,
    /// File content.
    pub content: String,
}

/// A source of packages.
pub trait PackageSource {
    /// The package with this import path, if the source has it.
    fn resolve(&self, import_path: &str) -> Option<VfsPackage>;

    /// Whether this source answers the import path.
    fn can_handle(&self, import_path: &str) -> bool;
}

/// Standard library packages, under a root directory.
pub struct StdSource {
    pub root: PathBuf,
}

/// Local packages, relative to the project directory.
pub struct LocalSource {
    pub root: PathBuf,
}

/// Packages of external modules, in the module cache.
pub struct ModSource {
    pub root: PathBuf,
}

/// The three package sources together.
pub struct PackageResolver {
    pub std: StdSource,
    pub local: LocalSource,
    pub module: ModSource,
}

/// Explicit local path: starts with `./` or `../`.
pub open spec fn is_local_path(p: Seq<char>) -> bool {
    text::starts_with(p, "./"@) || text::starts_with(p, "../"@)
}

/// Standard library path: no `.` in it.
pub open spec fn is_std_path(p: Seq<char>) -> bool {
    !text::contains_char(p, '.')
}

/// External module path: not local, and a `.` in it (a domain name).
pub open spec fn is_module_path(p: Seq<char>) -> bool {
    !is_local_path(p) && text::contains_char(p, '.')
}

fn local_path_exec(cs: &Vec<char>) -> (r: bool)
    ensures
        r == is_local_path(cs@),
{
    let dot_slash = ['.', '/'];
    let dot_dot_slash = ['.', '.', '/'];
    proof {
        reveal_strlit("./");
        reveal_strlit("../");
    }
    assert(dot_slash@ == "./"@);
    assert(dot_dot_slash@ == "../"@);
    assert(cs@.subrange(0, cs@.len() as int) == cs@);
    text::range_starts_with(cs.as_slice(), 0, cs.len(), &dot_slash) || text::range_starts_with(
        cs.as_slice(),
        0,
        cs.len(),
        &dot_dot_slash,
    )
}

fn contains_dot(cs: &Vec<char>) -> (r: bool)
    ensures
        r == text::contains_char(cs@, '.'),
{
    assert(cs@.subrange(0, cs@.len() as int) == cs@);
    text::range_contains_char(cs.as_slice(), 0, cs.len(), '.')
}

impl ResolverConfig {
    /// A configuration with the given roots.
    pub fn new(std_root: PathBuf, local_root: PathBuf, mod_root: PathBuf) -> (r: Self)
        ensures
            r.std_root == std_root,
            r.local_root == local_root,
            r.mod_root == mod_root,
    {
        ResolverConfig { std_root, local_root, mod_root }
    }

    /// A resolver whose sources sit at the configured roots.
    pub fn to_resolver(&self) -> (r: PackageResolver)
        ensures
            r.std.root == self.std_root,
            r.local.root == self.local_root,
            r.module.root == self.mod_root,
    {
        PackageResolver::with_roots(
            clone_path(&self.std_root),
            clone_path(&self.local_root),
            clone_path(&self.mod_root),
        )
    }
}

impl StdSource {
    /// The standard library under `root`.
    pub fn new(root: PathBuf) -> (r: Self)
        ensures
            r.root == root,
    {
        StdSource { root }
    }

    /// Standard library paths have no `.`.
    pub fn can_handle(&self, import_path: &str) -> (r: bool)
        ensures
            r == is_std_path(import_path@),
    {
        let cs = chars_of(import_path);
        !contains_dot(&cs)
    }
}

impl LocalSource {
    /// Local packages under `root`.
    pub fn new(root: PathBuf) -> (r: Self)
        ensures
            r.root == root,
    {
        LocalSource { root }
    }

    /// Local paths start with `./` or `../`.
    pub fn can_handle(&self, import_path: &str) -> (r: bool)
        ensures
            r == is_local_path(import_path@),
    {
        let cs = chars_of(import_path);
        local_path_exec(&cs)
    }
}

impl ModSource {
    /// The module cache under `root`.
    pub fn new(root: PathBuf) -> (r: Self)
        ensures
            r.root == root,
    {
        ModSource { root }
    }

    /// Module paths are not local and hold a `.`.
    pub fn can_handle(&self, import_path: &str) -> (r: bool)
        ensures
            r == is_module_path(import_path@),
    {
        let cs = chars_of(import_path);
        !local_path_exec(&cs) && contains_dot(&cs)
    }
}

/// Which sources answer an import path, in order.
#[derive(Debug, Clone, Copy, PartialEq, Eq, Structural)]
pub enum ResolveRoute {
    /// The local source alone.
    Local,
    /// The module cache alone.
    Module,
    /// The standard library, then the local source when it has no such package.
    StdThenLocal,
}

/// The route of an import path: explicit local paths go to the local source, dotted
/// paths to the module cache, other paths to the standard library first.
pub open spec fn route_of(p: Seq<char>) -> ResolveRoute {
    if is_local_path(p) {
        ResolveRoute::Local
    } else if text::contains_char(p, '.') {
        ResolveRoute::Module
    } else {
        ResolveRoute::StdThenLocal
    }
}

impl PackageResolver {
    /// A resolver with sources at the three roots.
    pub fn with_roots(std_root: PathBuf, local_root: PathBuf, mod_root: PathBuf) -> (r: Self)
        ensures
            r.std.root == std_root,
            r.local.root == local_root,
            r.module.root == mod_root,
    {
        PackageResolver {
            std: StdSource::new(std_root),
            local: LocalSource::new(local_root),
            module: ModSource::new(mod_root),
        }
    }

    /// Which sources answer `import_path`, in order.
    pub fn route(&self, import_path: &str) -> (r: ResolveRoute)
        ensures
            r == route_of(import_path@),
    {
        let cs = chars_of(import_path);
        if local_path_exec(&cs) {
            ResolveRoute::Local
        } else if contains_dot(&cs) {
            ResolveRoute::Module
        } else {
            ResolveRoute::StdThenLocal
        }
    }
}

/// The path with every leading `./` removed.
pub open spec fn strip_dot_slash(p: Seq<char>) -> Seq<char>
    decreases p.len(),
{
    if p.len() >= 2 && p[0] == '.' && p[1] == '/' {
        strip_dot_slash(p.subrange(2, p.len() as int))
    } else {
        p
    }
}

/// The directory of a local package, relative to the project: the import path
/// with every leading `./` removed.
pub fn local_rel_path(import_path: &str) -> (r: String)
    ensures
        r@ == strip_dot_slash(import_path@),
{
    let cs = chars_of(import_path);
    let mut i: usize = 0;
    assert(cs@.subrange(0, cs@.len() as int) == cs@);
    while cs.len() - i >= 2 && cs[i] == '.' && cs[i + 1] == '/'
        invariant
            cs@ == import_path@,
            0 <= i <= cs@.len(),
            strip_dot_slash(import_path@) == strip_dot_slash(cs@.subrange(i as int, cs@.len() as int)),
        decreases cs.len() - i,
    {
        let ghost rest = cs@.subrange(i as int, cs@.len() as int);
        assert(rest.subrange(2, rest.len() as int) == cs@.subrange(i + 2, cs@.len() as int));
        i = i + 2;
    }
    string_of_range(cs.as_slice(), i, cs.len())
}

/// Last `/`-separated segment of a path: the package name of a package directory.
pub open spec fn last_segment(p: Seq<char>) -> Seq<char>
    decreases p.len(),
{
    if p.len() == 0 {
        p
    } else if p.last() == '/' {
        Seq::empty()
    } else {
        last_segment(p.drop_last()).push(p.last())
    }
}

/// The name of the package in directory `fs_path`: its last `/`-separated segment.
pub fn package_name(fs_path: &str) -> (r: String)
    ensures
        r@ == last_segment(fs_path@),
{
    let cs = chars_of(fs_path);
    let mut k: usize = cs.len();
    assert(cs@.subrange(k as int, cs@.len() as int) =~= Seq::<char>::empty());
    assert(cs@.subrange(0, k as int) == cs@);
    while k > 0 && cs[k - 1] != '/'
        invariant
            cs@ == fs_path@,
            0 <= k <= cs@.len(),
            last_segment(fs_path@) == last_segment(cs@.subrange(0, k as int)) + cs@.subrange(k as int, cs@.len() as int),
        decreases k,
    {
        let ghost pre = cs@.subrange(0, k as int);
        assert(pre.drop_last() == cs@.subrange(0, k - 1));
        assert(cs@.subrange(k - 1, cs@.len() as int) == seq![cs@[k - 1]] + cs@.subrange(k as int, cs@.len() as int));
        k = k - 1;
    }
    assert(k == 0 ==> cs@.subrange(0, k as int) =~= Seq::<char>::empty());
    let r = string_of_range(cs.as_slice(), k, cs.len());
    r
}

/// The extension of a file name, as `Path::extension` finds it: the text after the
/// last `.`, unless that `.` is the first character.
pub open spec fn has_extension(name: Seq<char>, ext: Seq<char>) -> bool {
    exists|i: int|
        0 < i < name.len() && name[i] == '.' && !text::contains_char(name.subrange(i + 1, name.len() as int), '.')
            && #[trigger] name.subrange(i + 1, name.len() as int) == ext
}

/// Whether a file name ends in the extension `vo`.
pub fn is_vo_file(file_name: &str) -> (r: bool)
    ensures
        r == has_extension(file_name@, "vo"@),
{
    let cs = chars_of(file_name);
    let n = cs.len();
    let vo = ['v', 'o'];
    proof {
        reveal_strlit("vo");
    }
    assert(vo@ == "vo"@);
    let mut k: usize = n;
    while k > 0 && cs[k - 1] != '.'
        invariant
            cs@ == file_name@,
            n == cs@.len(),
            0 <= k <= n,
            !text::contains_char(cs@.subrange(k as int, n as int), '.'),
        decreases k,
    {
        assert(cs@.subrange(k - 1, n as int) == seq![cs@[k - 1]] + cs@.subrange(k as int, n as int));
        k = k - 1;
    }
    if k <= 1 {
        proof {
            if has_extension(cs@, "vo"@) {
                let i = choose|i: int|
                    0 < i < cs@.len() && cs@[i] == '.' && !text::contains_char(cs@.subrange(i + 1, cs@.len() as int), '.')
                        && #[trigger] cs@.subrange(i + 1, cs@.len() as int) == "vo"@;
                assert(cs@.subrange(k as int, n as int)[i - k] == '.');
            }
        }
        return false;
    }
    let r = text::range_eq(cs.as_slice(), k, n, &vo);
    proof {
        let i = (k - 1) as int;
        assert(cs@[i] == '.');
        if has_extension(cs@, "vo"@) && !r {
            let j = choose|j: int|
                0 < j < cs@.len() && cs@[j] == '.' && !text::contains_char(cs@.subrange(j + 1, cs@.len() as int), '.')
                    && #[trigger] cs@.subrange(j + 1, cs@.len() as int) == "vo"@;
            if j < i {
                assert(cs@.subrange(j + 1, n as int)[i - j - 1] == '.');
            } else if j > i {
                assert(cs@.subrange(k as int, n as int)[j - k] == '.');
            }
        }
        if r {
            assert(cs@.subrange(i + 1, cs@.len() as int) == "vo"@);
        }
    }
    r
}

/// Each import path is answered as the sources say: explicit local paths by the
/// local source alone, dotted paths by the module cache alone, and every other
/// path by the standard library first; no path is both a local and a module path,
/// and a standard library path is never a module path.
pub proof fn lemma_routes_follow_sources(p: Seq<char>)
    ensures
        (route_of(p) == ResolveRoute::Local) == is_local_path(p),
        (route_of(p) == ResolveRoute::Module) == is_module_path(p),
        (route_of(p) == ResolveRoute::StdThenLocal) ==> is_std_path(p) && !is_local_path(p),
        !(is_local_path(p) && is_module_path(p)),
        !(is_std_path(p) && is_module_path(p)),
{
}

} // verus!
