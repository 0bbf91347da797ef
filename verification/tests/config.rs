use rustforger_tracer::config::{
    generate_config_default, generate_config_with_output, generate_propagation_comment,
    trace_config_source, PropagationConfig,
};

#[test]
fn default_propagation() {
    let config = PropagationConfig::new();
    assert!(!config.enabled);
    assert_eq!(config.max_depth, Some(10));
    assert_eq!(config.exclude_patterns, vec!["std::", "core::"]);
    assert!(config.user_code_only);
    let config = PropagationConfig::default();
    assert!(!config.enabled);
    assert_eq!(config.max_depth, Some(10));
}

#[test]
fn enabled_propagation() {
    let config = PropagationConfig::enabled();
    assert!(config.enabled);
    assert_eq!(config.max_depth, Some(10));
    assert_eq!(config.exclude_patterns, vec!["std::", "core::"]);
    assert!(config.user_code_only);
}

#[test]
fn propagation_builders() {
    let config = PropagationConfig::enabled()
        .with_max_depth(3)
        .with_exclude_patterns(vec!["tokio::".to_string()])
        .with_user_code_only(false);
    assert!(config.enabled);
    assert_eq!(config.max_depth, Some(3));
    assert_eq!(config.exclude_patterns, vec!["tokio::"]);
    assert!(!config.user_code_only);
    let copy = config.clone();
    assert_eq!(copy.max_depth, Some(3));
    assert_eq!(copy.exclude_patterns, vec!["tokio::"]);
    assert!(copy.enabled && !copy.user_code_only);
}

#[test]
fn propagation_comments() {
    let off = "// Propagation instrumentation: disabled\n// Only manually traced functions will be recorded\n\n";
    assert_eq!(generate_propagation_comment(None), off);
    assert_eq!(generate_propagation_comment(Some(&PropagationConfig::new())), off);
    assert_eq!(
        generate_propagation_comment(Some(&PropagationConfig::enabled())),
        "// Propagation instrumentation config:\n// - Enabled: true\n// - Max depth: 10\n// - Exclude patterns: [\"std::\", \"core::\"]\n// - User code only: true\n//\n// Functions with propagation instrumentation automatically trace all internal calls\n// No need to manually add trace macros to each function\n\n"
    );
    let mut config = PropagationConfig::enabled()
        .with_exclude_patterns(vec!["a\"b".to_string(), "tab\there".to_string()])
        .with_user_code_only(false);
    config.max_depth = None;
    assert_eq!(
        generate_propagation_comment(Some(&config)),
        "// Propagation instrumentation config:\n// - Enabled: true\n// - Max depth: unlimited\n// - Exclude patterns: [\"a\\\"b\", \"tab\\there\"]\n// - User code only: false\n//\n// Functions with propagation instrumentation automatically trace all internal calls\n// No need to manually add trace macros to each function\n\n"
    );
}

#[test]
fn configuration_modules() {
    let with_output = generate_config_with_output("out/trace.json", "// info\n\n");
    assert!(with_output.starts_with(
        "// Auto-generated trace configuration file\n// Created by trace_cli tool\n\n// info\n\nuse std::path::Path;\nuse trace_runtime::tracer::interface::{enable_auto_save_with_path, TraceError};\n"
    ));
    assert!(with_output.contains("    let output_path = Path::new(\"out/trace.json\");\n    \n"));
    assert!(with_output.contains(
        "    eprintln!(\"🔄 Tracing initialized, output: {}\", output_path.display());\n"
    ));
    assert!(with_output.ends_with(
        "pub fn init_tracing_ignore_errors() {\n    if let Err(e) = init_tracing() {\n        eprintln!(\"⚠️  Failed to initialize tracing: {}\", e);\n    }\n}\n"
    ));

    let default = generate_config_default("");
    assert_eq!(
        default,
        "// Auto-generated trace configuration file\n// Created by trace_cli tool\n\nuse trace_runtime::tracer::interface::{enable_auto_save_default, TraceError};\n\n/// Initialize tracing system with intelligent defaults\n/// \n/// This uses platform-appropriate directories and avoids hardcoded paths.\n/// Path resolution priority:\n/// 1. TRACE_OUTPUT_FILE environment variable\n/// 2. Platform-specific application data directory  \n/// 3. Current working directory (trace_output.json)\npub fn init_tracing() -> Result<(), TraceError> {\n    // Use the improved default API that follows platform conventions\n    enable_auto_save_default()?;\n    eprintln!(\"🔄 Tracing initialized with intelligent defaults\");\n    Ok(())\n}\n\n/// Convenience initialization function that ignores errors\npub fn init_tracing_ignore_errors() {\n    if let Err(e) = init_tracing() {\n        eprintln!(\"⚠️  Failed to initialize tracing: {}\", e);\n    }\n}\n"
    );
}

#[test]
fn configuration_module_source() {
    let on = PropagationConfig::enabled();
    let source = trace_config_source(Some("t.json"), Some(&on));
    assert_eq!(
        source,
        generate_config_with_output("t.json", &generate_propagation_comment(Some(&on)))
    );
    let source = trace_config_source(None, None);
    assert_eq!(source, generate_config_default(&generate_propagation_comment(None)));
}
