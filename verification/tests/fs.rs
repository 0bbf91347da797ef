use rustforger_tracer::fs::{
    find_cargo_toml, find_project_root, is_rust_extension, is_rust_file, is_skipped_name,
    manifest_parts, should_skip_directory, DirectoryProbe, FsError,
};
use std::path::Path;

fn joined(dir: &str, name: &str) -> String {
    Path::new(dir).join(name).to_string_lossy().into_owned()
}

fn probe(dir: &str, has_manifest: bool) -> DirectoryProbe {
    DirectoryProbe { dir: dir.to_string(), has_manifest }
}

#[test]
fn rust_files() {
    assert!(is_rust_file("main.rs"));
    assert!(is_rust_file("src/lib.rs"));
    assert!(is_rust_file("/a/b.c/d.e.rs"));
    assert!(is_rust_file("src/.hidden.rs"));
    assert!(is_rust_file("src/lib.rs/"));
    assert!(!is_rust_file("src/lib.rs.bak"));
    assert!(!is_rust_file("src/lib.RS"));
    assert!(!is_rust_file("src/rs"));
    assert!(!is_rust_file("src/.rs"));
    assert!(!is_rust_file("a.rs/b"));
    assert!(!is_rust_file("src/lib."));
    assert!(!is_rust_file(""));
    assert!(!is_rust_file("/"));
    assert!(!is_rust_file(".."));
    assert!(!is_rust_file("README"));
    assert!(!is_rust_file("main.rs.bak"));
    // A dot behind the file changes nothing.
    assert!(is_rust_file("foo.rs/."));
    assert!(is_rust_file("src//main.rs"));
}

#[test]
fn rust_files_are_what_the_platform_takes_for_them() {
    for path in ["a.rs", "a.rs/.", "a/b.rs/", "x\\y.rs", "x.rs\\y", ".rs", "a..rs", "a.rs.", "é.rs"] {
        let expected = Path::new(path).extension().map_or(false, |ext| ext == "rs");
        assert_eq!(is_rust_file(path), expected, "{}", path);
    }
    for path in ["target", "target/.", "a/target//", "a\\target", "target/..", ".git/", "/"] {
        let expected = Path::new(path)
            .file_name()
            .and_then(|name| name.to_str())
            .map_or(false, |name| matches!(name, "target" | ".git" | "node_modules" | ".vscode"));
        assert_eq!(should_skip_directory(path), expected, "{}", path);
    }
}

#[test]
fn plain_names() {
    for (name, rust) in [
        ("a.rs", true),
        ("lib.rs", true),
        ("a.b.rs", true),
        ("..rs", true),
        ("a b.rs", true),
        ("é.rs", true),
        (".rs", false),
        ("rs", false),
        ("a.rs.", false),
        ("a.RS", false),
        ("a.rss", false),
        ("a.r", false),
        ("a.", false),
        ("...", false),
        ("target", false),
    ] {
        assert_eq!(is_rust_file(name), rust, "{}", name);
    }
    for (name, skipped) in [
        ("target", true),
        (".git", true),
        ("node_modules", true),
        (".vscode", true),
        ("Target", false),
        ("target ", false),
        ("git", false),
        (".github", false),
        ("src", false),
        ("...", false),
    ] {
        assert_eq!(should_skip_directory(name), skipped, "{}", name);
    }
}

#[test]
fn the_manifest_has_its_name() {
    for dir in ["", "/", "/work", "/work/", "C:", "C:\\work", "a b", "Cargo.toml"] {
        let probes = vec![probe("/nearer", false), probe(dir, true), probe("/farther", true)];
        let path = find_cargo_toml("x.rs", &probes).unwrap();
        assert!(path.ends_with("Cargo.toml"), "{}", path);
        assert_eq!(path, joined(dir, "Cargo.toml"));
        assert_eq!(find_project_root(&probes).unwrap(), dir);
        let parts = manifest_parts(&probes).unwrap();
        assert_eq!(parts.base, dir);
        assert_eq!(parts.names, vec!["Cargo.toml".to_string()]);
    }
    assert!(manifest_parts(&vec![probe("/a", false), probe("/", false)]).is_none());
    assert!(manifest_parts(&Vec::new()).is_none());
}

#[test]
fn extensions_and_names() {
    assert!(is_rust_extension(Some("rs")));
    assert!(!is_rust_extension(Some("RS")));
    assert!(!is_rust_extension(Some("")));
    assert!(!is_rust_extension(Some("rss")));
    assert!(!is_rust_extension(None));
    assert!(is_skipped_name(Some("target")));
    assert!(is_skipped_name(Some(".git")));
    assert!(is_skipped_name(Some("node_modules")));
    assert!(is_skipped_name(Some(".vscode")));
    assert!(!is_skipped_name(Some("src")));
    assert!(!is_skipped_name(Some("targets")));
    assert!(!is_skipped_name(Some("")));
    assert!(!is_skipped_name(None));
}

#[test]
fn skipped_directories() {
    assert!(should_skip_directory("target"));
    assert!(should_skip_directory("/work/project/target"));
    assert!(should_skip_directory("project/.git"));
    assert!(should_skip_directory("project/node_modules/"));
    assert!(should_skip_directory("./.vscode"));
    assert!(!should_skip_directory("project/src"));
    assert!(!should_skip_directory("project/targets"));
    assert!(!should_skip_directory("target/debug"));
    assert!(!should_skip_directory(""));
    assert!(!should_skip_directory("project/.."));
    assert!(should_skip_directory("target/."));
}

#[test]
fn finding_the_manifest() {
    let probes = vec![
        probe("/work/ws/member/src", false),
        probe("/work/ws/member", true),
        probe("/work/ws", true),
        probe("/work", false),
        probe("/", false),
    ];
    assert_eq!(
        find_cargo_toml("/work/ws/member/src/lib.rs", &probes).unwrap(),
        joined("/work/ws/member", "Cargo.toml")
    );
    assert_eq!(find_project_root(&probes).unwrap(), "/work/ws/member");
    let probes = vec![probe("/", true)];
    assert_eq!(find_cargo_toml("/", &probes).unwrap(), joined("/", "Cargo.toml"));
    let probes = vec![probe("C:\\work", true)];
    assert_eq!(find_cargo_toml("C:\\work", &probes).unwrap(), joined("C:\\work", "Cargo.toml"));
    assert_eq!(find_project_root(&probes).unwrap(), "C:\\work");
}

#[test]
fn no_manifest_to_find() {
    let probes = vec![probe("/work/a", false), probe("/work", false), probe("/", false)];
    match find_cargo_toml("/work/a/x.rs", &probes) {
        Err(e) => {
            assert!(matches!(&e, FsError::ManifestNotFound { start_path } if start_path == "/work/a/x.rs"));
            assert_eq!(
                e.message(),
                "Could not find Cargo.toml file in /work/a/x.rs or its parent directories"
            );
        }
        Ok(path) => panic!("unexpected: {}", path),
    }
    match find_project_root(&probes) {
        Err(e) => {
            assert!(matches!(e, FsError::ProjectRootNotFound));
            assert_eq!(e.message(), "Could not find project root (Cargo.toml)");
        }
        Ok(path) => panic!("unexpected: {}", path),
    }
    assert!(find_project_root(&Vec::new()).is_err());
}
