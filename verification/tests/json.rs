use rustforger_tracer::config::copy_strings;
use rustforger_tracer::json::{
    append_decimal, append_decimal_wide, append_indented, append_json_string, encode,
    render_node, render_record, render_records,
};
use rustforger_tracer::text::{find_from, has_match_at, slice_of};
use rustforger_tracer::trace_data::{CallData, CallNode, Encoded};
use rustforger_tracer::tracer::{OutputMode, TraceError, TracerState};

fn chars(s: &str) -> Vec<char> {
    s.chars().collect()
}

fn record(inputs: Encoded, output: Encoded) -> CallData {
    CallData {
        timestamp_utc: "t".to_string(),
        thread_id: "ThreadId(1)".to_string(),
        root_node: CallNode::leaf("f", "a.rs", 1),
        inputs,
        output,
    }
}

fn text(s: &str) -> Encoded {
    Encoded::Text(s.to_string())
}

#[test]
fn numbers_in_decimal() {
    let mut out = String::from("n=");
    append_decimal(&mut out, 0);
    out.push(' ');
    append_decimal(&mut out, 907);
    out.push(' ');
    append_decimal(&mut out, u64::MAX);
    out.push(' ');
    append_decimal_wide(&mut out, u128::MAX);
    assert_eq!(out, format!("n=0 907 {} {}", u64::MAX, u128::MAX));
}

#[test]
fn json_strings() {
    let mut out = String::from("x: ");
    append_json_string(&mut out, "");
    append_json_string(&mut out, "a\"b\\c\n");
    assert_eq!(out, "x: \"\"\"a\\\"b\\\\c\\n\"");
}

#[test]
fn nested_text_is_moved_to_the_right() {
    let mut out = String::from(">");
    append_indented(&mut out, "{\n  \"a\": [\n    1\n  ]\n}", "    ");
    assert_eq!(out, ">{\n      \"a\": [\n        1\n      ]\n    }");
    let mut out = String::new();
    append_indented(&mut out, "\n\n", "  ");
    assert_eq!(out, "\n  \n  ");
    let mut out = String::new();
    append_indented(&mut out, "plain", "  ");
    assert_eq!(out, "plain");
}

#[test]
fn values_are_encoded_as_the_encoder_prints_them() {
    let value: serde_json::Value =
        serde_json::from_str("{\"b\": [1, {\"c\": null}], \"a\": \"x\\ny\", \"n\": -1.5e3}").unwrap();
    match encode(&value) {
        Encoded::Text(t) => assert_eq!(t, serde_json::to_string_pretty(&value).unwrap()),
        Encoded::Failed(m) => panic!("no text: {}", m),
    }
    let copy = encode(&value).duplicate();
    assert!(matches!(copy, Encoded::Text(t) if t.starts_with("{\n  \"a\": \"x\\ny\",")));
    assert!(matches!(Encoded::Failed("m".to_string()).duplicate(), Encoded::Failed(m) if m == "m"));
}

#[test]
fn a_node_as_text() {
    let mut node = CallNode::leaf("f", "a.rs", 7);
    node.children.push(CallNode::leaf("g", "b.rs", 8));
    let mut out = String::from("node: ");
    render_node(&node, "", &mut out);
    assert_eq!(
        out,
        "node: {\n  \"name\": \"f\",\n  \"file\": \"a.rs\",\n  \"line\": 7,\n  \"children\": [\n    {\n      \"name\": \"g\",\n      \"file\": \"b.rs\",\n      \"line\": 8,\n      \"children\": []\n    }\n  ]\n}"
    );
}

#[test]
fn a_record_as_text_or_refused() {
    let mut out = String::from("> ");
    assert!(render_record(&record(text("1"), text("2")), "", &mut out).is_ok());
    assert_eq!(
        out,
        "> {\n  \"timestamp_utc\": \"t\",\n  \"thread_id\": \"ThreadId(1)\",\n  \"root_node\": {\n    \"name\": \"f\",\n    \"file\": \"a.rs\",\n    \"line\": 1,\n    \"children\": []\n  },\n  \"inputs\": 1,\n  \"output\": 2\n}"
    );
    let mut out = String::from("kept");
    let refused =
        render_record(&record(Encoded::Failed("in".to_string()), Encoded::Failed("out".to_string())), "", &mut out);
    assert!(matches!(refused, Err(TraceError::Serialization(m)) if m == "in"));
    assert_eq!(out, "kept");
    let refused = render_record(&record(text("1"), Encoded::Failed("out".to_string())), "", &mut out);
    assert!(matches!(refused, Err(TraceError::Serialization(m)) if m == "out"));
    assert_eq!(out, "kept");
}

#[test]
fn a_buffer_is_refused_with_the_first_message() {
    assert_eq!(render_records(&Vec::new()).unwrap(), "[]");
    let records = vec![
        record(text("1"), text("2")),
        record(text("1"), Encoded::Failed("first".to_string())),
        record(Encoded::Failed("second".to_string()), text("2")),
    ];
    assert!(matches!(render_records(&records), Err(TraceError::Serialization(m)) if m == "first"));
    let one = vec![record(text("1"), text("2"))];
    let parsed: serde_json::Value = serde_json::from_str(&render_records(&one).unwrap()).unwrap();
    assert_eq!(parsed.as_array().unwrap().len(), 1);
}

#[test]
fn the_steps_of_the_state() {
    let mut state = TracerState::new();
    assert!(state.ensure_tracing_initialized().is_ok());
    state.push_call(4, "f", "a.rs", 1);
    state.push_call(4, "g", "a.rs", 2);
    state.pop_call(4);
    assert_eq!(state.open_calls(4), 1);
    assert_eq!(state.top_call(4).unwrap().children[0].name, "g");
    state.pop_call(9);
    assert_eq!(state.stats(), (0, 1));

    assert!(state.request_auto_save());
    assert!(!state.request_auto_save());

    let plan = state.set_output_mode(&OutputMode::Stream { path: "t.json".to_string() }.clone());
    assert_eq!(plan.open_path, Some("t.json".to_string()));
    assert!(matches!(state.output_mode(), OutputMode::Memory));
    assert!(state.stream_opened("t.json".to_string(), Ok(())).is_ok());
    assert!(matches!(state.output_mode(), OutputMode::Stream { path } if path == "t.json"));
    assert!(state.is_stream_open());
    assert!(matches!(
        state.stream_opened("u.json".to_string(), Err("no".to_string())),
        Err(TraceError::Io(m)) if m == "no"
    ));
    assert!(matches!(state.output_mode(), OutputMode::Stream { path } if path == "t.json"));
    assert!(matches!(
        state.finalize_to_path("t.json"),
        rustforger_tracer::tracer::FinalizePlan::CloseStream { copy_to: None, .. }
    ));
}

#[test]
fn helpers_on_texts() {
    let v = chars("abcabc");
    assert!(has_match_at(&v, &chars("bc"), 1));
    assert!(has_match_at(&v, &chars(""), 6));
    assert!(!has_match_at(&v, &chars(""), 7));
    assert!(!has_match_at(&v, &chars("bc"), 2));
    assert!(!has_match_at(&v, &chars("bc"), 5));
    assert_eq!(find_from(&v, &chars("bc"), 0), Some(1));
    assert_eq!(find_from(&v, &chars("bc"), 2), Some(4));
    assert_eq!(find_from(&v, &chars("bc"), 5), None);
    assert_eq!(find_from(&v, &chars("bc"), 60), None);
    assert_eq!(slice_of(&v, 1, 4), chars("bca"));
    assert_eq!(slice_of(&v, 6, 6), chars(""));
    assert_eq!(copy_strings(&vec!["a".to_string(), "".to_string()]), vec!["a", ""]);
}
