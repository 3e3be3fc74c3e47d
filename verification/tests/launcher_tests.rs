use vo_lang::launcher::{check_abi_version, classify_source, parse_zip_path, CompileError, ExtError, SourceKind, ABI_VERSION};

#[test]
fn zip_paths() {
    assert_eq!(parse_zip_path("lib.zip"), Some(("lib.zip".to_string(), None)));
    assert_eq!(parse_zip_path("a/lib.zip:src/main"), Some(("a/lib.zip".to_string(), Some("src/main".to_string()))));
    assert_eq!(parse_zip_path("x.zip:"), Some(("x.zip".to_string(), Some(String::new()))));
    assert_eq!(parse_zip_path("main.vo"), None);
}

#[test]
fn source_kinds() {
    assert_eq!(classify_source("main.vo", false), SourceKind::SourceFile);
    assert_eq!(classify_source("app.zip", false), SourceKind::Zip("app.zip".to_string(), None));
    assert_eq!(classify_source("app.zip:pkg", true), SourceKind::Zip("app.zip".to_string(), Some("pkg".to_string())));
    assert_eq!(classify_source("prog.vob", false), SourceKind::Bytecode);
    assert_eq!(classify_source("prog.voc", true), SourceKind::Bytecode);
    assert_eq!(classify_source("project", true), SourceKind::Directory);
    assert_eq!(classify_source("script", false), SourceKind::SourceFile);
}

#[test]
fn error_messages() {
    assert_eq!(CompileError::Parse("x".to_string()).message(), "Parse error: x");
    assert_eq!(CompileError::Analysis("y".to_string()).message(), "Analysis error: y");
    assert_eq!(CompileError::Codegen("z".to_string()).message(), "Codegen error: z");
    let io = CompileError::Io(std::io::Error::new(std::io::ErrorKind::Other, "disk"));
    assert_eq!(io.message(), "IO error: disk");
    assert_eq!(ExtError::LoadFailed("no lib".to_string()).message(), "failed to load extension: no lib");
    assert_eq!(ExtError::MissingEntryPoint.message(), "extension missing vo_ext_get_entries");
    assert_eq!(ExtError::VersionMismatch { expected: 1, found: 3 }.message(), "ABI version mismatch: expected 1, found 3");
    assert_eq!(ExtError::ManifestError("bad".to_string()).message(), "manifest error: bad");
}

#[test]
fn abi_versions() {
    assert!(check_abi_version(ABI_VERSION).is_ok());
    match check_abi_version(7) {
        Err(ExtError::VersionMismatch { expected, found }) => {
            assert_eq!(expected, 1);
            assert_eq!(found, 7);
        },
        _ => panic!("version 7 accepted"),
    }
}
