use rustforger_tracer::config::PropagationConfig;
use rustforger_tracer::instrument::{
    add_trace_attribute, attribute_present, is_revertible_import, is_trace_attribute,
    is_trace_import, last_identifier, AllFunctionInstrumenter, FunctionInstrumenter, FunctionSpec,
    MultipleFunctionInstrumenter, TraceAttribute,
};

fn strings(items: &[&str]) -> Vec<String> {
    items.iter().map(|s| s.to_string()).collect()
}

#[test]
fn function_spec_parsing() {
    let spec = FunctionSpec::parse("visit_path_mut");
    assert_eq!(spec.type_path, None);
    assert_eq!(spec.method_name, "visit_path_mut");
    assert_eq!(spec.original_input, "visit_path_mut");

    let spec = FunctionSpec::parse("CollectLifetimes::visit_path_mut");
    assert_eq!(spec.type_path, Some("CollectLifetimes".to_string()));
    assert_eq!(spec.method_name, "visit_path_mut");
    assert_eq!(spec.original_input, "CollectLifetimes::visit_path_mut");

    let spec = FunctionSpec::parse("std::collections::HashMap::new");
    assert_eq!(spec.type_path, Some("std::collections::HashMap".to_string()));
    assert_eq!(spec.method_name, "new");

    let spec = FunctionSpec::parse("a:::b");
    assert_eq!(spec.type_path, Some("a:".to_string()));
    assert_eq!(spec.method_name, "b");

    let spec = FunctionSpec::parse("::");
    assert_eq!(spec.type_path, Some("".to_string()));
    assert_eq!(spec.method_name, "");

    let spec = FunctionSpec::parse("");
    assert_eq!(spec.type_path, None);
    assert_eq!(spec.method_name, "");
}

#[test]
fn function_spec_matching() {
    let plain = FunctionSpec::parse("run");
    assert!(plain.matches_function_name("run"));
    assert!(!plain.matches_function_name("runs"));
    assert!(plain.matches_impl_method("Anything", "run"));
    assert!(!plain.matches_impl_method("Anything", "walk"));

    let method = FunctionSpec::parse("Engine::run");
    assert!(method.matches_function_name("run"));
    assert!(method.matches_impl_method("Engine", "run"));
    assert!(!method.matches_impl_method("Motor", "run"));
    assert!(!method.matches_impl_method("Engine", "walk"));
}

#[test]
fn single_function_instrumenter() {
    let free = FunctionInstrumenter::new("run", None);
    assert!(!free.found_function);
    assert!(free.is_target_function("run"));
    assert!(!free.is_target_function("walk"));
    assert!(free.is_target_impl_method("Engine", "run"));

    let method = FunctionInstrumenter::new("Engine::run", Some(PropagationConfig::enabled()));
    assert!(!method.is_target_function("run"));
    assert!(method.is_target_impl_method("Engine", "run"));
    assert!(!method.is_target_impl_method("Motor", "run"));
    assert!(method.propagation_config.unwrap().enabled);
}

#[test]
fn all_function_instrumenter() {
    let mut all = AllFunctionInstrumenter::new(None);
    assert_eq!(all.instrumented_count, 0);
    assert!(all.should_instrument_function("run", &strings(&["inline", "doc"])));
    assert!(!all.should_instrument_function("run", &strings(&["test"])));
    assert!(!all.should_instrument_function("run", &strings(&["doc", "rustforger_trace"])));
    assert!(!all.should_instrument_function("run", &strings(&["trace"])));
    assert!(!all.should_instrument_function("main", &strings(&[])));
    assert!(!all.should_instrument_function("_hidden", &strings(&[])));
    assert!(all.should_instrument_function("", &strings(&[])));

    assert!(all.should_instrument_method("main", &strings(&[])));
    assert!(all.should_instrument_method("run", &strings(&["inline"])));
    assert!(!all.should_instrument_method("run", &strings(&["test"])));
    assert!(!all.should_instrument_method("run", &strings(&["trace"])));
    assert!(!all.should_instrument_method("_run", &strings(&[])));

    all.count_instrumented();
    all.count_instrumented();
    assert_eq!(all.instrumented_count, 2);
}

#[test]
fn trace_attributes() {
    assert_eq!(add_trace_attribute(&strings(&["inline"]), None), Some(TraceAttribute::Plain));
    assert_eq!(add_trace_attribute(&strings(&["trace"]), None), None);
    assert_eq!(add_trace_attribute(&strings(&["doc", "rustforger_trace"]), None), None);
    let on = PropagationConfig::enabled();
    let off = PropagationConfig::new();
    assert_eq!(add_trace_attribute(&strings(&[]), Some(&on)), Some(TraceAttribute::Propagating));
    assert_eq!(add_trace_attribute(&strings(&[]), Some(&off)), Some(TraceAttribute::Plain));
    assert_eq!(add_trace_attribute(&strings(&["trace"]), Some(&on)), None);
    assert_eq!(TraceAttribute::Plain.source(), "#[rustforger_trace]");
    assert_eq!(TraceAttribute::Propagating.source(), "#[rustforger_trace(propagate = true)]");

    assert!(is_trace_attribute("trace"));
    assert!(is_trace_attribute("rustforger_trace"));
    assert!(!is_trace_attribute("traced"));
    assert!(attribute_present(&strings(&["a", "b"]), "b"));
    assert!(!attribute_present(&strings(&["a", "b"]), "c"));
}

#[test]
fn trace_imports() {
    assert!(is_trace_import("trace_runtime :: trace_macro :: rustforger_trace"));
    assert!(!is_trace_import("std :: io"));
    assert!(!is_trace_import("rustforger_trace"));
    assert!(is_revertible_import("rustforger_trace"));
    assert!(is_revertible_import("trace_runtime :: tracer"));
    assert!(!is_revertible_import("std :: io"));
}

#[test]
fn multiple_function_instrumenter() {
    let targets = strings(&["run", "Engine::start", "stop", "Engine::run"]);
    let mut multi = MultipleFunctionInstrumenter::new(&targets, None);
    assert_eq!(multi.instrumented_count(), 0);
    assert_eq!(multi.missing_functions(), targets);
    assert!(multi.instrumented_functions().is_empty());

    assert!(multi.is_target_function("run"));
    assert!(multi.is_target_function("stop"));
    assert!(!multi.is_target_function("start"));
    assert!(multi.is_target_impl_method("Engine", "start"));
    assert!(multi.is_target_impl_method("Motor", "run"));
    assert!(!multi.is_target_impl_method("Motor", "start"));

    multi.mark_function_found("stop");
    multi.mark_impl_method_found("Engine", "start");
    // A function that no name stands for changes nothing.
    multi.mark_function_found("start");
    assert_eq!(multi.instrumented_count(), 2);
    assert_eq!(multi.instrumented_functions(), strings(&["stop", "Engine::start"]));
    assert_eq!(multi.missing_functions(), strings(&["run", "Engine::run"]));

    // The first name that fits is the one found: `run` stands for any
    // method named so.
    multi.mark_impl_method_found("Engine", "run");
    assert_eq!(multi.instrumented_count(), 3);
    assert_eq!(multi.missing_functions(), strings(&["Engine::run"]));
    // Met again, a function is counted again but listed once.
    multi.mark_function_found("run");
    assert_eq!(multi.instrumented_count(), 4);
    assert_eq!(multi.instrumented_functions(), strings(&["stop", "Engine::start", "run"]));
    assert!(multi.propagation_config().is_none());
}

#[test]
fn last_identifiers() {
    assert_eq!(last_identifier("[ u8 ; 4 ]"), "4");
    assert_eq!(last_identifier("( A , B )"), "B");
    assert_eq!(last_identifier("dyn Trait"), "Trait");
    assert_eq!(last_identifier("impl Iterator < Item = my :: Thing >"), "Thing");
    assert_eq!(last_identifier("fn ( u8 ) -> !"), "u8");
    assert_eq!(last_identifier("Vec<u8>"), "u8");
    assert_eq!(last_identifier("a_b c-d"), "a_b");
    assert_eq!(last_identifier("( )"), "");
    assert_eq!(last_identifier(""), "");
    assert_eq!(last_identifier("Été"), "Été");
}
