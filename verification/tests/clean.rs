use rustforger_tracer::clean::{clean_main_rs_integration, restore_main_rs};
use rustforger_tracer::main_rs::auto_integrate_trace;

#[test]
fn cleaning_takes_the_set_up_out() {
    let content = "use std::io;\n\nmod trace_config;\n\nfn main() {\n    // Initialize trace system automatically\n    trace_config::init_tracing_ignore_errors();\n\n    run();\n}\n";
    let cleaned = clean_main_rs_integration(content).unwrap();
    assert_eq!(cleaned.content, "use std::io;\n\nfn main() {\n\n    run();\n}");
    assert_eq!(cleaned.changes, vec!["mod trace_config;", "1 trace initialization calls"]);
    assert_eq!(
        restore_main_rs(content).unwrap(),
        "use std::io;\n\n\nfn main() {\n\n    run();\n}"
    );
}

#[test]
fn cleaning_a_clean_file_changes_nothing() {
    let content = "use std::io;\n\n\n\nfn main() {\n    run();\n}\n";
    assert!(clean_main_rs_integration(content).is_none());
    assert!(restore_main_rs(content).is_none());
    assert!(clean_main_rs_integration("").is_none());
}

#[test]
fn cleaning_takes_every_call_but_one_mod_line_and_one_comment() {
    let content = "mod trace_config; // first\nmod trace_config;\n// Initialize trace system automatically\n// Initialize trace system automatically\ntrace_config::init_tracing();\nlet _ = trace_config::init_tracing_ignore_errors();\ntrace_config::init_tracing_with(x);\nother::init_tracing_with(x);\nkeep();";
    let cleaned = clean_main_rs_integration(content).unwrap();
    assert_eq!(
        cleaned.content,
        "mod trace_config;\n// Initialize trace system automatically\nother::init_tracing_with(x);\nkeep();"
    );
    assert_eq!(cleaned.changes, vec!["mod trace_config;", "3 trace initialization calls"]);
}

#[test]
fn cleaning_notes_only_what_was_taken_out() {
    let cleaned = clean_main_rs_integration("a\n// Initialize trace system automatically\nb").unwrap();
    assert_eq!(cleaned.content, "a\nb");
    assert!(cleaned.changes.is_empty());
    let cleaned = clean_main_rs_integration("  trace_config::init_tracing();\n\n\nb").unwrap();
    assert_eq!(cleaned.content, "\nb");
    assert_eq!(cleaned.changes, vec!["1 trace initialization calls"]);
    assert_eq!(restore_main_rs("  trace_config::init_tracing();\n\n\nb").unwrap(), "\n\nb");
}

#[test]
fn cleaning_undoes_integrating() {
    let original = "use std::io;\n\nfn main() {\n    run();\n}";
    let integrated = auto_integrate_trace(original).unwrap();
    let cleaned = clean_main_rs_integration(&integrated).unwrap();
    assert_eq!(cleaned.content, "use std::io;\n\nfn main() {\n\n    run();\n}");
}
