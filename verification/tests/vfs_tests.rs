use std::path::PathBuf;
use vo_lang::vfs::{
    is_vo_file, local_rel_path, package_name, LocalSource, ModSource, PackageResolver, ResolveRoute,
    ResolverConfig, StdSource,
};
use vo_lang::vfs::{choose_std_root, exe_relative_dir, std_root_candidates, StdRootCandidate, StdRootChoice};

#[test]
fn test_can_handle() {
    let std_vfs = StdSource::new(PathBuf::new());
    let local_vfs = LocalSource::new(PathBuf::new());
    let mod_vfs = ModSource::new(PathBuf::new());

    assert!(std_vfs.can_handle("fmt"));
    assert!(std_vfs.can_handle("encoding/json"));
    assert!(!std_vfs.can_handle("github.com/user/pkg"));

    assert!(local_vfs.can_handle("./mylib"));
    assert!(local_vfs.can_handle("../shared"));
    assert!(!local_vfs.can_handle("fmt"));

    assert!(mod_vfs.can_handle("github.com/user/pkg"));
    assert!(!mod_vfs.can_handle("fmt"));
    assert!(!mod_vfs.can_handle("./mylib"));
}

#[test]
fn routes_of_import_paths() {
    let r = PackageResolver::with_roots(PathBuf::from("s"), PathBuf::from("l"), PathBuf::from("m"));
    assert_eq!(r.route("./x"), ResolveRoute::Local);
    assert_eq!(r.route("../x.y"), ResolveRoute::Local);
    assert_eq!(r.route("github.com/a/b"), ResolveRoute::Module);
    assert_eq!(r.route("fmt"), ResolveRoute::StdThenLocal);
}

#[test]
fn config_keeps_roots() {
    let c = ResolverConfig::new(PathBuf::from("/std"), PathBuf::from("/proj"), PathBuf::from("/mods"));
    let r = c.to_resolver();
    assert_eq!(r.std.root, PathBuf::from("/std"));
    assert_eq!(r.local.root, PathBuf::from("/proj"));
    assert_eq!(r.module.root, PathBuf::from("/mods"));
}

#[test]
fn derived_names() {
    assert_eq!(local_rel_path("./././lib"), "lib");
    assert_eq!(local_rel_path("../lib"), "../lib");
    assert_eq!(package_name("a/b/fmt"), "fmt");
    assert_eq!(package_name("fmt"), "fmt");
    assert_eq!(package_name("a/"), "");
    assert!(is_vo_file("main.vo"));
    assert!(is_vo_file("a.b.vo"));
    assert!(!is_vo_file(".vo"));
    assert!(!is_vo_file("main.vob"));
    assert!(!is_vo_file("vo"));
}

#[test]
fn std_root_is_env_then_first_valid_candidate_then_fallback() {
    let c = std_root_candidates();
    assert_eq!(c.len(), 8);
    assert_eq!(c[0], StdRootCandidate::ProjectAncestor(0));
    assert_eq!(c[3], StdRootCandidate::ProjectAncestor(3));
    assert_eq!(c[4], StdRootCandidate::ExeRelative(0));
    assert_eq!(exe_relative_dir(0), "../../../stdlib");
    assert_eq!(exe_relative_dir(3), "../lib/vo/stdlib");
    let valid = vec![false, false, true, false, true, false, false, false];
    assert_eq!(choose_std_root(true, &valid), StdRootChoice::Env);
    assert_eq!(choose_std_root(false, &valid), StdRootChoice::Candidate(2));
    assert_eq!(choose_std_root(false, &vec![false; 8]), StdRootChoice::Fallback);
}
