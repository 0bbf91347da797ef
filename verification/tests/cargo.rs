use rustforger_tracer::cargo::{
    add_dependency, dependency_exists, dependency_path_text, display_dependency_summary,
    display_removal_summary, ensure_dependencies_section, parse_document, record_dependency,
    record_removal, remove_dependencies_from_cargo_toml, remove_dependencies_from_document,
    remove_dependency, update_cargo_toml_with_deps, update_document, write_dependency,
    Dependency, DependencyStats, DependencyType, ManifestError,
};

fn document(text: &str) -> toml_edit::Document {
    parse_document(text).unwrap()
}

fn trace_deps<'a>() -> Vec<Dependency<'a>> {
    vec![
        Dependency { name: "trace_runtime", source: DependencyType::Path("/opt/tracer/trace_runtime") },
        Dependency { name: "trace_common", source: DependencyType::Path("../tracer\\trace_common") },
        Dependency { name: "serde_json", source: DependencyType::Version("1.0") },
    ]
}

#[test]
fn empty_stats() {
    let stats = DependencyStats::new();
    assert!(stats.added.is_empty());
    assert!(stats.skipped.is_empty());
    assert!(!stats.has_changes());
    let stats = DependencyStats::default();
    assert!(stats.added.is_empty() && stats.skipped.is_empty());
}

#[test]
fn noting_dependencies() {
    let mut stats = DependencyStats::new();
    stats.add_added("serde_json".to_string());
    stats.add_skipped("trace_common".to_string());
    stats.add_added("trace_runtime".to_string());
    assert_eq!(stats.added, vec!["serde_json", "trace_runtime"]);
    assert_eq!(stats.skipped, vec!["trace_common"]);
    assert!(stats.has_changes());
}

#[test]
fn dependency_types() {
    let by_path = DependencyType::Path("../tracer/trace_runtime");
    let by_version = DependencyType::Version("1.0");
    assert!(matches!(by_path, DependencyType::Path("../tracer/trace_runtime")));
    assert!(matches!(by_version.clone(), DependencyType::Version("1.0")));
}

#[test]
fn deciding_on_dependencies() {
    let mut stats = DependencyStats::new();
    assert!(record_dependency(&mut stats, "a", false, false));
    assert!(record_dependency(&mut stats, "b", false, true));
    assert!(record_dependency(&mut stats, "c", true, true));
    assert!(!record_dependency(&mut stats, "d", true, false));
    assert_eq!(stats.added, vec!["a", "b", "c"]);
    assert_eq!(stats.skipped, vec!["d"]);
}

#[test]
fn noting_removals() {
    let mut stats = DependencyStats::new();
    record_removal(&mut stats, "trace_runtime", true);
    record_removal(&mut stats, "trace_common", false);
    record_removal(&mut stats, "serde_json", true);
    assert_eq!(stats.added, vec!["trace_runtime", "serde_json"]);
    assert_eq!(stats.skipped, vec!["trace_common"]);
    assert_eq!(
        display_removal_summary(&stats),
        "dependency removal summary:\n  removed: 2\n  not found: 1\n"
    );
}

#[test]
fn dependency_summaries() {
    let mut stats = DependencyStats::new();
    assert_eq!(display_dependency_summary(&stats), None);
    stats.add_skipped("a".to_string());
    assert_eq!(
        display_dependency_summary(&stats),
        Some("dependency summary:\n  added: 0\n  skipped: 1\n".to_string())
    );
    for _ in 0..11 {
        stats.add_added("b".to_string());
    }
    assert_eq!(
        display_dependency_summary(&stats),
        Some("dependency summary:\n  added: 11\n  skipped: 1\n".to_string())
    );
}

#[test]
fn dependency_paths() {
    assert_eq!(dependency_path_text("..\\tracer\\trace_runtime", false), "../tracer/trace_runtime");
    assert_eq!(dependency_path_text("C:\\tracer\\trace_runtime", true), "C:\\tracer\\trace_runtime");
    assert_eq!(dependency_path_text("../a/b", false), "../a/b");
    assert_eq!(dependency_path_text("", false), "");
}

#[test]
fn dependencies_of_a_manifest() {
    let doc = document("[package]\nname = \"x\"\n\n[dependencies]\nserde = \"1\"\nanyhow = { version = \"1\" }\n");
    assert!(dependency_exists(&doc, "serde"));
    assert!(dependency_exists(&doc, "anyhow"));
    assert!(!dependency_exists(&doc, "package"));
    assert!(!dependency_exists(&doc, "name"));
    assert!(!dependency_exists(&document("[package]\nname = \"x\"\n"), "serde"));
    // Dependencies in one line are not seen.
    assert!(!dependency_exists(&document("dependencies = { serde = \"1\" }\n"), "serde"));
    assert!(dependency_exists(&document("[dependencies.serde]\nversion = \"1\"\n"), "serde"));
}

#[test]
fn a_section_for_dependencies() {
    let mut doc = document("[package]\nname = \"x\"\n");
    ensure_dependencies_section(&mut doc);
    assert_eq!(doc.to_string(), "[package]\nname = \"x\"\n\n[dependencies]\n");
    ensure_dependencies_section(&mut doc);
    assert_eq!(doc.to_string(), "[package]\nname = \"x\"\n\n[dependencies]\n");
    let mut doc = document("[dependencies]\nserde = \"1\"\n");
    ensure_dependencies_section(&mut doc);
    assert_eq!(doc.to_string(), "[dependencies]\nserde = \"1\"\n");
}

#[test]
fn adding_dependencies() {
    let mut doc = document("[dependencies]\nserde = \"1\"\n");
    add_dependency(&mut doc, "serde_json", DependencyType::Version("1.0"));
    add_dependency(&mut doc, "trace_common", DependencyType::Path("../tracer\\trace_common"));
    add_dependency(&mut doc, "serde", DependencyType::Version("2"));
    assert!(dependency_exists(&doc, "serde_json"));
    assert!(dependency_exists(&doc, "trace_common"));
    assert_eq!(
        doc.to_string(),
        "[dependencies]\nserde = \"2\"\nserde_json = \"1.0\"\ntrace_common = { path = \"../tracer/trace_common\" }\n"
    );
    let mut doc = document("dependencies = { serde = \"1\" }\n");
    add_dependency(&mut doc, "a", DependencyType::Version("1"));
    assert!(!dependency_exists(&doc, "a"));
    assert_eq!(document(&doc.to_string())["dependencies"]["a"].as_str(), Some("1"));
}

#[test]
fn removing_dependencies() {
    let mut doc = document("[dependencies]\nserde = \"1\"\nserde_json = \"1\"\n");
    assert!(remove_dependency(&mut doc, "serde_json"));
    assert!(!remove_dependency(&mut doc, "serde_json"));
    assert!(!remove_dependency(&mut doc, "missing"));
    assert!(dependency_exists(&doc, "serde"));
    assert_eq!(doc.to_string(), "[dependencies]\nserde = \"1\"\n");
    let mut doc = document("[package]\n");
    assert!(!remove_dependency(&mut doc, "serde"));
}

#[test]
fn updating_a_manifest() {
    let content = "[package]\nname = \"x\"\n\n[dependencies]\nserde_json = \"0.9\"\n";
    let (text, stats) = update_cargo_toml_with_deps(content, &trace_deps(), false).unwrap();
    assert_eq!(stats.added, vec!["trace_runtime", "trace_common"]);
    assert_eq!(stats.skipped, vec!["serde_json"]);
    let doc = document(&text);
    assert_eq!(doc["dependencies"]["serde_json"].as_str(), Some("0.9"));
    assert_eq!(
        doc["dependencies"]["trace_runtime"]["path"].as_str(),
        Some("/opt/tracer/trace_runtime")
    );
    assert!(text.starts_with("[package]\nname = \"x\"\n"));

    let (text, stats) = update_cargo_toml_with_deps(content, &trace_deps(), true).unwrap();
    assert_eq!(stats.added, vec!["trace_runtime", "trace_common", "serde_json"]);
    assert!(stats.skipped.is_empty());
    assert_eq!(document(&text)["dependencies"]["serde_json"].as_str(), Some("1.0"));

    let (text, stats) = update_cargo_toml_with_deps("[package]\nname = \"x\"\n", &trace_deps(), false).unwrap();
    assert_eq!(stats.added.len(), 3);
    assert!(dependency_exists(&document(&text), "trace_common"));

    // A dependency that comes twice is written once and skipped once.
    let twice = vec![
        Dependency { name: "a", source: DependencyType::Version("1") },
        Dependency { name: "a", source: DependencyType::Version("2") },
    ];
    let mut doc = document("");
    let stats = update_document(&mut doc, &twice, false).unwrap();
    assert_eq!(stats.added, vec!["a"]);
    assert_eq!(stats.skipped, vec!["a"]);
    assert_eq!(doc["dependencies"]["a"].as_str(), Some("1"));
}

#[test]
fn a_manifest_that_cannot_be_updated() {
    match update_cargo_toml_with_deps("[package", &trace_deps(), false) {
        Err(ManifestError::Parse(m)) => {
            assert!(m.contains("TOML parse error"));
            assert!(ManifestError::Parse(m.clone()).message().starts_with("Failed to parse Cargo.toml: TOML parse error"));
        }
        other => panic!("unexpected: {:?}", other.map(|p| p.0)),
    }
    match update_cargo_toml_with_deps("dependencies = 3\n", &trace_deps(), false) {
        Err(ManifestError::DependenciesNotATable) => {}
        other => panic!("unexpected: {:?}", other.map(|p| p.0)),
    }
    assert_eq!(
        ManifestError::DependenciesNotATable.message(),
        "The dependencies of Cargo.toml are not a table"
    );
    let (text, stats) = update_cargo_toml_with_deps("dependencies = 3\n", &Vec::new(), false).unwrap();
    assert_eq!(text, "dependencies = 3\n");
    assert!(!stats.has_changes());
}

#[test]
fn taking_the_trace_dependencies_out() {
    let content = "[dependencies]\ntrace_runtime = { path = \"/t\" }\nserde = \"1\"\nserde_json = \"1.0\"\n";
    let (text, stats) = remove_dependencies_from_cargo_toml(content).unwrap();
    assert_eq!(stats.added, vec!["trace_runtime", "serde_json"]);
    assert_eq!(stats.skipped, vec!["trace_common"]);
    assert_eq!(text, "[dependencies]\nserde = \"1\"\n");
    let mut doc = document("[package]\n");
    let stats = remove_dependencies_from_document(&mut doc);
    assert!(stats.added.is_empty());
    assert_eq!(stats.skipped, vec!["trace_runtime", "trace_common", "serde_json"]);
    assert!(remove_dependencies_from_cargo_toml("= broken").is_err());
}

#[test]
fn writing_a_dependency() {
    let mut doc = document("[dependencies]\nserde = \"1\"\n");
    write_dependency(&mut doc, "a", DependencyType::Path("x\\y"), false);
    write_dependency(&mut doc, "c", DependencyType::Version("0.3"), true);
    assert_eq!(
        doc.to_string(),
        "[dependencies]\nserde = \"1\"\na = { path = \"x/y\" }\nc = \"0.3\"\n"
    );
    write_dependency(&mut doc, "b", DependencyType::Path("x\\y"), true);
    let read = document(&doc.to_string());
    assert_eq!(read["dependencies"]["serde"].as_str(), Some("1"));
    assert_eq!(read["dependencies"]["a"]["path"].as_str(), Some("x/y"));
    assert_eq!(read["dependencies"]["b"]["path"].as_str(), Some("x\\y"));
    assert_eq!(read["dependencies"]["c"].as_str(), Some("0.3"));
    // A later write takes the place of an earlier one; the others stay.
    write_dependency(&mut doc, "a", DependencyType::Version("2"), false);
    let read = document(&doc.to_string());
    assert_eq!(read["dependencies"]["a"].as_str(), Some("2"));
    assert_eq!(read["dependencies"]["b"]["path"].as_str(), Some("x\\y"));
    // Where nothing stands under the name of the section, a table in a line is made.
    let mut doc = document("[package]\nname = \"x\"\n");
    write_dependency(&mut doc, "a", DependencyType::Version("1"), false);
    assert!(!dependency_exists(&doc, "a"));
    let read = document(&doc.to_string());
    assert!(read["dependencies"].is_inline_table());
    assert_eq!(read["dependencies"]["a"].as_str(), Some("1"));
}

#[test]
fn a_manifest_without_trace_dependencies_is_left_alone() {
    let content = "# mine\n[package]\nname = \"x\"\n\n[dependencies]\nserde = { version = \"1\" } # kept\n";
    let (text, stats) = remove_dependencies_from_cargo_toml(content).unwrap();
    assert_eq!(text, content);
    assert!(stats.added.is_empty());
    assert_eq!(stats.skipped, vec!["trace_runtime", "trace_common", "serde_json"]);
    match remove_dependencies_from_cargo_toml("[dependencies\n") {
        Err(ManifestError::Parse(m)) => assert!(!m.is_empty()),
        other => panic!("unexpected: {:?}", other.map(|_| ())),
    }
}
