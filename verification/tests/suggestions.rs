use rustforger_tracer::suggestions::{
    format_function_list, format_nearest_functions, generate_function_suggestions,
    levenshtein_distance, precedes, AvailableFunction, FunctionCategory, FunctionCollector,
};

fn chars(s: &str) -> Vec<char> {
    s.chars().collect()
}

fn attrs(items: &[&str]) -> Vec<String> {
    items.iter().map(|s| s.to_string()).collect()
}

fn names(functions: &[AvailableFunction]) -> Vec<&str> {
    functions.iter().map(|f| f.full_name.as_str()).collect()
}

#[test]
fn edit_distances() {
    assert_eq!(levenshtein_distance("", ""), 0);
    assert_eq!(levenshtein_distance("", "abc"), 3);
    assert_eq!(levenshtein_distance("abcd", ""), 4);
    assert_eq!(levenshtein_distance("kitten", "sitting"), 3);
    assert_eq!(levenshtein_distance("flaw", "lawn"), 2);
    assert_eq!(levenshtein_distance("saturday", "sunday"), 3);
    assert_eq!(levenshtein_distance("same", "same"), 0);
    assert_eq!(levenshtein_distance("a", "b"), 1);
    assert_eq!(levenshtein_distance("parse_file", "parse_fiel"), 2);
    assert_eq!(levenshtein_distance("abc", "xyz"), 3);
    assert_eq!(levenshtein_distance("héllo", "hello"), 1);
}

#[test]
fn string_order() {
    assert!(precedes(&chars("a"), &chars("b")));
    assert!(precedes(&chars(""), &chars("a")));
    assert!(precedes(&chars("ab"), &chars("abc")));
    assert!(precedes(&chars("Z"), &chars("a")));
    assert!(precedes(&chars("a_"), &chars("aa")));
    assert!(!precedes(&chars("a"), &chars("a")));
    assert!(!precedes(&chars("b"), &chars("a")));
    assert!(!precedes(&chars(""), &chars("")));
    assert!(!precedes(&chars("abc"), &chars("ab")));
}

#[test]
fn collecting_functions() {
    let mut collector = FunctionCollector::new();
    collector.collect_function("run", &attrs(&["inline"]));
    collector.collect_function("check", &attrs(&["test"]));
    collector.collect_function("bench_it", &attrs(&["bench"]));
    collector.collect_function("only_unix", &attrs(&["cfg"]));
    collector.collect_function("_private", &attrs(&[]));
    collector.collect_method("Engine", "start", &attrs(&[]));
    collector.collect_method("Engine", "_hidden", &attrs(&[]));
    collector.collect_method("Engine", "tested", &attrs(&["test"]));
    collector.collect_method("", "nameless", &attrs(&[]));
    assert_eq!(names(&collector.functions), vec!["run", "_private", "Engine::start"]);
    match &collector.functions[2].function_type {
        FunctionCategory::ImplMethod { type_path } => assert_eq!(type_path, "Engine"),
        other => panic!("unexpected: {:?}", other),
    }
    assert!(matches!(collector.functions[0].function_type, FunctionCategory::Standalone));
}

#[test]
fn sorting_functions() {
    let mut collector = FunctionCollector::new();
    collector.collect_method("Zebra", "b", &attrs(&[]));
    collector.collect_function("walk", &attrs(&[]));
    collector.collect_method("Apple", "z", &attrs(&[]));
    collector.collect_method("Zebra", "a", &attrs(&[]));
    collector.collect_function("Run", &attrs(&[]));
    collector.collect_method("Apple", "a", &attrs(&[]));
    collector.collect_function("jump", &attrs(&[]));
    collector.collect_function("walk", &attrs(&[]));
    let sorted = collector.into_sorted_functions();
    assert_eq!(
        names(&sorted),
        vec!["Run", "jump", "walk", "walk", "Apple::a", "Apple::z", "Zebra::a", "Zebra::b"]
    );
    assert!(FunctionCollector::new().into_sorted_functions().is_empty());
}

#[test]
fn listing_functions() {
    let mut collector = FunctionCollector::new();
    collector.collect_method("Zebra", "b", &attrs(&[]));
    collector.collect_function("walk", &attrs(&[]));
    collector.collect_method("Apple", "z", &attrs(&[]));
    collector.collect_method("Zebra", "a", &attrs(&[]));
    collector.collect_function("jump", &attrs(&[]));
    // In the order given: the types are put in order, the rest is not.
    assert_eq!(
        format_function_list(&collector.functions),
        "Available functions in this file:\n\nStandalone functions:\n  - walk\n  - jump\n\nMethods in Apple:\n  - Apple::z\n\nMethods in Zebra:\n  - Zebra::b\n  - Zebra::a\n\nUse the exact function name from above with --function parameter.\nFor methods, use the full qualified name like 'TypeName::method_name'."
    );
    assert_eq!(
        generate_function_suggestions(collector),
        "Available functions in this file:\n\nStandalone functions:\n  - jump\n  - walk\n\nMethods in Apple:\n  - Apple::z\n\nMethods in Zebra:\n  - Zebra::a\n  - Zebra::b\n\nUse the exact function name from above with --function parameter.\nFor methods, use the full qualified name like 'TypeName::method_name'."
    );
}

#[test]
fn listing_without_functions_of_one_kind() {
    let mut collector = FunctionCollector::new();
    collector.collect_method("Engine", "start", &attrs(&[]));
    assert_eq!(
        format_function_list(&collector.functions),
        "Available functions in this file:\n\nMethods in Engine:\n  - Engine::start\n\nUse the exact function name from above with --function parameter.\nFor methods, use the full qualified name like 'TypeName::method_name'."
    );
    let mut collector = FunctionCollector::new();
    collector.collect_function("run", &attrs(&[]));
    assert_eq!(
        format_function_list(&collector.functions),
        "Available functions in this file:\n\nStandalone functions:\n  - run\n\nUse the exact function name from above with --function parameter.\nFor methods, use the full qualified name like 'TypeName::method_name'."
    );
    assert_eq!(
        format_function_list(&Vec::new()),
        "Available functions in this file:\n\nUse the exact function name from above with --function parameter.\nFor methods, use the full qualified name like 'TypeName::method_name'."
    );
    assert_eq!(
        generate_function_suggestions(FunctionCollector::new()),
        "No public functions found in this file."
    );
}

#[test]
fn listing_the_nearest_functions() {
    let mut collector = FunctionCollector::new();
    collector.collect_function("run", &attrs(&[]));
    assert_eq!(
        format_nearest_functions(&collector.functions, "rum"),
        "Found 1 functions, showing top 20 most similar to 'rum':\n\nAvailable functions in this file:\n\nStandalone functions:\n  - run\n\nUse the exact function name from above with --function parameter.\nFor methods, use the full qualified name like 'TypeName::method_name'."
    );
}
