use rustforger_tracer::trace_data::CallNode;
use rustforger_tracer::trace_display::{
    display_call_tree, display_single_call, display_trace_preview, display_values,
    extract_time_from_timestamp, extract_type_from_placeholder, format_location, format_value,
    is_empty_object, simplify_type_name, value_shape, DisplayConfig, PreviewCall, ValueShape,
};

fn value(text: &str) -> serde_json::Value {
    serde_json::from_str(text).unwrap()
}

fn shape(text: &str) -> ValueShape {
    value_shape(&value(text))
}

fn node(name: &str, line: u32, children: Vec<CallNode>) -> CallNode {
    CallNode { name: name.to_string(), file: "src/app/main.rs".to_string(), line, children }
}

fn call(thread: &str, name: &str, children: Vec<CallNode>) -> PreviewCall {
    PreviewCall {
        timestamp_utc: "2024-05-06T07:08:09.123+00:00".to_string(),
        thread_id: thread.to_string(),
        root_node: node(name, 1, children),
        inputs: shape("{\"x\": 1}"),
        output: shape("2"),
    }
}

#[test]
fn default_display_config() {
    let config = DisplayConfig::default();
    assert_eq!(config.max_entries, 30);
    assert_eq!(config.max_depth, 10);
    assert_eq!(config.max_children_per_node, 10);
    assert!(config.show_values);
    assert_eq!(config.max_value_length, 200);
}

#[test]
fn locations() {
    assert_eq!(format_location("src/app/main.rs", 12), "(main.rs:12)");
    assert_eq!(format_location("main.rs", 0), "(main.rs:0)");
    assert_eq!(format_location("src/", 4294967295), "(:4294967295)");
    assert_eq!(format_location("", 1), "(:1)");
}

#[test]
fn times() {
    assert_eq!(extract_time_from_timestamp("2024-05-06T07:08:09.123456+00:00"), "07:08:09");
    assert_eq!(extract_time_from_timestamp("2024-05-06T07:08:09Z"), "07:08:09");
    assert_eq!(extract_time_from_timestamp("2024-05-06T07:08:09"), "07:08:09");
    assert_eq!(extract_time_from_timestamp("2024-05-06T07:08+00:00"), "2024-05-06T07:08+00:00");
    assert_eq!(extract_time_from_timestamp("2024-05-06 07:08:09"), "2024-05-06 07:08:09");
    assert_eq!(extract_time_from_timestamp("xT12:34:56T99"), "12:34:56");
    assert_eq!(extract_time_from_timestamp(""), "");
}

#[test]
fn simple_type_names() {
    assert_eq!(simplify_type_name("alloc::string::String"), "String");
    assert_eq!(
        simplify_type_name("alloc::vec::Vec<alloc::string::String>"),
        "Vec<String>"
    );
    assert_eq!(
        simplify_type_name("core::option::Option<alloc::rc::Rc<i32>>"),
        "Option<Rc<i32>>"
    );
    assert_eq!(simplify_type_name("std::sync::Arc<std::sync::Mutex<u8>>"), "Arc<Mutex<u8>>");
    assert_eq!(
        simplify_type_name("std::collections::hash::map::HashMap<u8, core::result::Result<u8, u8>>"),
        "HashMap<u8, Result<u8, u8>>"
    );
    // Thirty characters stay as they are, thirty-one go down to the last
    // segment.
    let thirty = format!("m::{}", "x".repeat(27));
    assert_eq!(simplify_type_name(&thirty), thirty);
    let thirty_one = format!("m::{}", "x".repeat(28));
    assert_eq!(simplify_type_name(&thirty_one), "x".repeat(28));
    // It is the bytes that count.
    let wide = format!("m::{}", "é".repeat(14));
    assert_eq!(simplify_type_name(&wide), "é".repeat(14));
    let narrow = format!("m::{}é", "x".repeat(25));
    assert_eq!(simplify_type_name(&narrow), narrow);
    assert_eq!(
        simplify_type_name("abcdefghijklmnopqrstuvwxyz_0123456789"),
        "abcdefghijklmnopqrstuvwxyz_0123456789"
    );
}

#[test]
fn placeholders_in_short() {
    assert_eq!(
        extract_type_from_placeholder("<unserializable: alloc::rc::Rc<i32>>"),
        "<Rc<i32>>"
    );
    assert_eq!(extract_type_from_placeholder("<unserializable:alloc::rc::Rc<i32>>"), "<unserializable>");
    assert_eq!(extract_type_from_placeholder("<unserializable: Rc<i32>"), "<Rc<i32>");
    assert_eq!(extract_type_from_placeholder("<unserializable: x"), "<unserializable>");
    assert_eq!(extract_type_from_placeholder("<unserializable: "), "<unserializable>");
    assert_eq!(
        extract_type_from_placeholder("<debug: alloc::vec::Vec<i32> = [1, 2, 3]>"),
        "<Vec<i32>>"
    );
    assert_eq!(extract_type_from_placeholder("<debug: Thing>"), "<Thing>>");
    assert_eq!(extract_type_from_placeholder("<debug:Thing = 1>"), "<debug>");
    assert_eq!(extract_type_from_placeholder("plain"), "plain");
}

#[test]
fn value_shapes() {
    assert!(matches!(shape("null"), ValueShape::Null));
    assert!(matches!(shape("\"text\""), ValueShape::Text(s) if s == "text"));
    assert!(matches!(shape("[1, 2, 3]"), ValueShape::Array(3)));
    assert!(matches!(shape("12.5"), ValueShape::Other(s) if s == "12.5"));
    assert!(matches!(shape("true"), ValueShape::Other(s) if s == "true"));
    match shape("{\"b\": 1, \"a\": 2}") {
        ValueShape::Object(keys) => assert_eq!(keys, vec!["a", "b"]),
        other => panic!("unexpected: {:?}", other),
    }
    assert!(is_empty_object(&shape("{}")));
    assert!(!is_empty_object(&shape("{\"a\": 1}")));
    assert!(!is_empty_object(&shape("[]")));
}

#[test]
fn values_in_short() {
    assert_eq!(format_value(&shape("null"), 200), "null");
    assert_eq!(format_value(&shape("\"text\""), 200), "\"text\"");
    assert_eq!(format_value(&shape("\"<unserializable: alloc::rc::Rc<i32>>\""), 200), "<Rc<i32>>");
    assert_eq!(format_value(&shape("\"<debug: Thing = x>\""), 200), "<Thing>");
    assert_eq!(format_value(&shape("{}"), 200), "{}");
    assert_eq!(format_value(&shape("{\"a\": 1}"), 200), "{a}");
    assert_eq!(format_value(&shape("{\"c\": 1, \"a\": 1, \"b\": 1}"), 200), "{a, b, c}");
    assert_eq!(format_value(&shape("{\"d\": 0, \"c\": 1, \"a\": 1, \"b\": 1}"), 200), "{a, b, c, ...}");
    assert_eq!(format_value(&shape("[]"), 200), "[]");
    assert_eq!(format_value(&shape("[1, [2, 3]]"), 200), "[2 items]");
    assert_eq!(format_value(&shape("-12"), 200), "-12");
    assert_eq!(format_value(&shape("false"), 200), "false");
}

#[test]
fn values_are_cut_to_length() {
    let long = shape("\"abcdefghij\"");
    assert_eq!(format_value(&long, 12), "\"abcdefghij\"");
    assert_eq!(format_value(&long, 11), "\"abcdefg...");
    assert_eq!(format_value(&long, 4), "\"...");
    assert_eq!(format_value(&long, 3), "...");
    assert_eq!(format_value(&long, 2), "...");
    assert_eq!(format_value(&long, 0), "...");
    assert_eq!(format_value(&shape("\"\""), 0), "...");
}

#[test]
fn showing_values() {
    let config = DisplayConfig::default();
    assert_eq!(
        display_values(&shape("{\"x\": 1}"), &shape("2"), &config, "  "),
        "  in:  {x}\n  out: 2\n"
    );
    assert_eq!(display_values(&shape("{}"), &shape("null"), &config, "  "), "");
    assert_eq!(display_values(&shape("null"), &shape("[]"), &config, ""), "out: []\n");
    assert_eq!(display_values(&shape("[]"), &shape("null"), &config, "> "), "> in:  []\n");
}

#[test]
fn showing_a_call_tree() {
    let root = node(
        "root",
        1,
        vec![
            node("a", 2, vec![node("a1", 3, vec![]), node("a2", 4, vec![node("deep", 5, vec![])])]),
            node("b", 6, vec![]),
            node("c", 7, vec![node("c1", 8, vec![])]),
        ],
    );
    let config = DisplayConfig::default();
    let mut out = String::new();
    display_call_tree(&root, &config, config.max_depth, "  ", &mut out);
    assert_eq!(
        out,
        "  ├─ a (main.rs:2)\n  │  ├─ a1 (main.rs:3)\n  │  └─ a2 (main.rs:4)\n  │     └─ deep (main.rs:5)\n  ├─ b (main.rs:6)\n  └─ c (main.rs:7)\n     └─ c1 (main.rs:8)\n"
    );

    let narrow = DisplayConfig { max_children_per_node: 2, max_depth: 2, ..config };
    let mut out = String::from("head\n");
    display_call_tree(&root, &narrow, narrow.max_depth, "", &mut out);
    assert_eq!(
        out,
        "head\n├─ a (main.rs:2)\n│  ├─ a1 (main.rs:3)\n│  └─ a2 (main.rs:4)\n│     └─ ... (max depth reached)\n├─ b (main.rs:6)\n└─ ... (1 more children omitted)\n"
    );

    let flat = DisplayConfig { max_depth: 0, ..config };
    let mut out = String::new();
    display_call_tree(&root, &flat, 0, "> ", &mut out);
    assert_eq!(out, "> └─ ... (max depth reached)\n");

    let none = DisplayConfig { max_children_per_node: 0, ..config };
    let mut out = String::new();
    display_call_tree(&root, &none, 3, "", &mut out);
    assert_eq!(out, "└─ ... (3 more children omitted)\n");
}

#[test]
fn showing_one_call() {
    let config = DisplayConfig::default();
    let mut out = String::new();
    display_single_call(&call("ThreadId(1)", "f", vec![node("g", 2, vec![])]), &config, "", &mut out);
    assert_eq!(
        out,
        "f (main.rs:1) [07:08:09]\n  in:  {x}\n  out: 2\n  └─ g (main.rs:2)\n"
    );
    let quiet = DisplayConfig { show_values: false, ..config };
    let mut out = String::new();
    display_single_call(&call("ThreadId(1)", "f", vec![]), &quiet, "  ├─", &mut out);
    assert_eq!(out, "  ├─f (main.rs:1) [07:08:09]\n");
}

#[test]
fn previews() {
    let config = DisplayConfig { show_values: false, ..DisplayConfig::default() };
    assert_eq!(display_trace_preview(&Vec::new(), &config), "Trace Preview: No trace data found\n");

    let calls = vec![
        call("ThreadId(2)", "a", vec![]),
        call("ThreadId(1)", "b", vec![]),
        call("ThreadId(2)", "c", vec![node("c1", 2, vec![])]),
        call("ThreadId(2)", "d", vec![]),
    ];
    assert_eq!(
        display_trace_preview(&calls, &config),
        "Trace Preview (4 entries, showing first 4)\nThread ThreadId(2) (3 calls)\n  ├─a (main.rs:1) [07:08:09]\n  ├─c (main.rs:1) [07:08:09]\n  ├─  └─ c1 (main.rs:2)\n  └─d (main.rs:1) [07:08:09]\nb (main.rs:1) [07:08:09]\n"
    );

    let few = DisplayConfig { max_entries: 3, ..config };
    assert_eq!(
        display_trace_preview(&calls, &few),
        "Trace Preview (4 entries, showing first 3)\nThread ThreadId(2) (2 calls)\n  ├─a (main.rs:1) [07:08:09]\n  └─c (main.rs:1) [07:08:09]\n  └─  └─ c1 (main.rs:2)\nb (main.rs:1) [07:08:09]\n... 1 more entries omitted\n"
    );

    let none = DisplayConfig { max_entries: 0, ..config };
    assert_eq!(
        display_trace_preview(&calls, &none),
        "Trace Preview (4 entries, showing first 0)\n... 4 more entries omitted\n"
    );
}
