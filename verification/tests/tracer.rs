use rustforger_tracer::auto_save::AutoSaveConfig;
use rustforger_tracer::interface::{
    auto_save_enabled, clear, emergency_save, enable_auto_save, ensure_auto_save_initialized,
    enter, enter_dynamic, exit, finalize, get_stats, init, record_function_call,
    record_top_level_call, HookPlan,
};
use rustforger_tracer::trace_common::is_utc_timestamp_text;
use rustforger_tracer::trace_data::{CallData, Encoded};
use rustforger_tracer::tracer::{
    label_of, thread_number, EmergencyPlan, FinalizePlan, OutputMode, RecordOutcome, TraceError,
    TracerState,
};

fn value(text: &str) -> serde_json::Value {
    serde_json::from_str(text).unwrap()
}

fn text_of(encoded: &Encoded) -> String {
    match encoded {
        Encoded::Text(t) => t.clone(),
        Encoded::Failed(m) => panic!("not encoded: {}", m),
    }
}

fn buffered_text(state: &mut TracerState, path: &str) -> String {
    match finalize(state, path) {
        FinalizePlan::WriteFile { path: to, contents } => {
            assert_eq!(to, path);
            contents
        }
        other => panic!("unexpected plan: {:?}", other),
    }
}

/// Starts a stream at `path` and returns what the file holds then.
fn start_stream(state: &mut TracerState, path: &str) -> String {
    let config = AutoSaveConfig::new(path.to_string()).no_hooks();
    let plan = enable_auto_save(state, &config);
    assert_eq!(plan.open_path, Some(path.to_string()));
    let hooks = auto_save_enabled(state, &config, Ok(())).unwrap();
    assert_eq!(hooks, HookPlan { panic_hook: false, exit_hook: false });
    plan.header
}

/// Records on the thread's top call and appends the chunk to `file`.
fn stream_record(state: &mut TracerState, thread: u64, file: &mut String, input: &str) {
    match record_function_call(state, thread, &value(input), &value("null")) {
        RecordOutcome::Append { chunk, record } => {
            file.push_str(&chunk);
            state.stream_event_written(record, true);
        }
        other => panic!("unexpected outcome: {:?}", other),
    }
}

#[test]
fn enter_and_exit_leave_no_open_call() {
    let mut state = TracerState::new();
    enter(&mut state, 1, "f", "a.rs", 10);
    assert_eq!(state.open_calls(1), 1);
    exit(&mut state, 1);
    assert_eq!(state.open_calls(1), 0);
    assert_eq!(get_stats(&state), (0, 1));
}

#[test]
fn well_nested_calls_leave_the_stack_empty() {
    let mut state = TracerState::new();
    enter(&mut state, 1, "a", "m.rs", 1);
    enter(&mut state, 1, "b", "m.rs", 2);
    enter(&mut state, 1, "c", "m.rs", 3);
    assert_eq!(state.open_calls(1), 3);
    exit(&mut state, 1);
    enter(&mut state, 1, "d", "m.rs", 4);
    exit(&mut state, 1);
    exit(&mut state, 1);
    enter(&mut state, 1, "e", "m.rs", 5);
    exit(&mut state, 1);
    assert_eq!(state.open_calls(1), 1);
    exit(&mut state, 1);
    assert_eq!(state.open_calls(1), 0);
    assert!(state.top_call(1).is_none());
}

#[test]
fn exit_without_an_open_call_does_nothing() {
    let mut state = TracerState::new();
    exit(&mut state, 1);
    assert_eq!(state.open_calls(1), 0);
    // A thread that only left calls is not counted.
    assert_eq!(get_stats(&state), (0, 0));
    enter(&mut state, 1, "f", "a.rs", 1);
    exit(&mut state, 1);
    exit(&mut state, 1);
    exit(&mut state, 1);
    assert_eq!(state.open_calls(1), 0);
    enter(&mut state, 1, "g", "a.rs", 2);
    assert_eq!(state.open_calls(1), 1);
    assert_eq!(state.top_call(1).unwrap().name, "g");
}

#[test]
fn a_record_holds_the_completed_nested_calls_in_call_order() {
    let mut state = TracerState::new();
    enter(&mut state, 1, "outer", "m.rs", 1);
    enter(&mut state, 1, "first", "m.rs", 2);
    enter(&mut state, 1, "deep", "m.rs", 3);
    exit(&mut state, 1);
    exit(&mut state, 1);
    enter(&mut state, 1, "second", "m.rs", 4);
    exit(&mut state, 1);
    enter_dynamic(&mut state, 1, "third", "m.rs", 5);
    exit(&mut state, 1);
    let outcome = record_function_call(&mut state, 1, &value("[]"), &value("null"));
    assert!(matches!(outcome, RecordOutcome::Buffered));
    exit(&mut state, 1);

    let records = state.buffered_records();
    assert_eq!(records.len(), 1);
    let root = &records[0].root_node;
    assert_eq!(root.name, "outer");
    let names: Vec<&str> = root.children.iter().map(|c| c.name.as_str()).collect();
    assert_eq!(names, vec!["first", "second", "third"]);
    assert_eq!(root.children[0].children.len(), 1);
    assert_eq!(root.children[0].children[0].name, "deep");
    assert_eq!(root.children[0].children[0].line, 3);
    assert!(root.children[1].children.is_empty());
    assert!(root.children[2].children.is_empty());
}

#[test]
fn a_record_is_a_snapshot() {
    let mut state = TracerState::new();
    enter(&mut state, 1, "f", "a.rs", 1);
    record_function_call(&mut state, 1, &value("1"), &value("2"));
    enter(&mut state, 1, "late", "a.rs", 2);
    exit(&mut state, 1);
    exit(&mut state, 1);
    assert!(state.buffered_records()[0].root_node.children.is_empty());
}

#[test]
fn record_with_an_empty_stack_is_a_silent_no_op() {
    let mut state = TracerState::new();
    let outcome = record_function_call(&mut state, 1, &value("1"), &value("2"));
    assert!(matches!(outcome, RecordOutcome::NoOpenCall));
    assert_eq!(get_stats(&state), (0, 0));

    enter(&mut state, 1, "f", "a.rs", 1);
    exit(&mut state, 1);
    let outcome = record_top_level_call(&mut state, 1, &value("1"), &value("2"));
    assert!(matches!(outcome, RecordOutcome::NoOpenCall));
    // Another thread's open call is no root for this one.
    enter(&mut state, 2, "g", "a.rs", 1);
    let outcome = record_function_call(&mut state, 1, &value("1"), &value("2"));
    assert!(matches!(outcome, RecordOutcome::NoOpenCall));
    assert_eq!(get_stats(&state), (0, 2));

    let mut file = start_stream(&mut state, "t.json");
    let before = file.clone();
    let outcome = record_function_call(&mut state, 1, &value("1"), &value("2"));
    assert!(matches!(outcome, RecordOutcome::NoOpenCall));
    assert_eq!(state.streamed_count(), 0);
    assert_eq!(get_stats(&state).0, 0);
    file.push_str("");
    assert_eq!(file, before);
}

#[test]
fn a_single_function_gives_one_record() {
    let mut state = TracerState::new();
    enter(&mut state, 1, "f", "a.rs", 10);
    let outcome = record_function_call(&mut state, 1, &value("{\"x\":1}"), &value("2"));
    assert!(matches!(outcome, RecordOutcome::Buffered));
    exit(&mut state, 1);

    let records = state.buffered_records();
    assert_eq!(records.len(), 1);
    let record = &records[0];
    assert_eq!(record.root_node.name, "f");
    assert_eq!(record.root_node.file, "a.rs");
    assert_eq!(record.root_node.line, 10);
    assert!(record.root_node.children.is_empty());
    assert_eq!(value(&text_of(&record.inputs)), value("{\"x\":1}"));
    assert_eq!(value(&text_of(&record.output)), value("2"));
    assert_eq!(record.thread_id, "ThreadId(1)");
    assert!(record.timestamp_utc.contains('T'));

    let text = buffered_text(&mut state, "out.json");
    let parsed = value(&text);
    let array = parsed.as_array().unwrap();
    assert_eq!(array.len(), 1);
    assert_eq!(
        array[0]["root_node"],
        value("{\"name\":\"f\",\"file\":\"a.rs\",\"line\":10,\"children\":[]}")
    );
    assert_eq!(array[0]["inputs"], value("{\"x\":1}"));
    assert_eq!(array[0]["output"], value("2"));
    assert_eq!(array[0]["thread_id"], value("\"ThreadId(1)\""));
    assert_eq!(array[0].as_object().unwrap().len(), 5);
}

#[test]
fn a_nested_call_is_recorded_on_its_own_and_in_its_caller() {
    let mut state = TracerState::new();
    enter(&mut state, 1, "f", "a.rs", 1);
    enter(&mut state, 1, "g", "a.rs", 2);
    record_function_call(&mut state, 1, &value("{\"g\":true}"), &value("\"g out\""));
    exit(&mut state, 1);
    record_function_call(&mut state, 1, &value("{\"f\":true}"), &value("\"f out\""));
    exit(&mut state, 1);

    let records = state.buffered_records();
    assert_eq!(records.len(), 2);
    assert_eq!(records[0].root_node.name, "g");
    assert!(records[0].root_node.children.is_empty());
    assert_eq!(value(&text_of(&records[0].inputs)), value("{\"g\":true}"));
    assert_eq!(records[1].root_node.name, "f");
    assert_eq!(records[1].root_node.children.len(), 1);
    let child = &records[1].root_node.children[0];
    assert_eq!(child.name, "g");
    assert_eq!(child.file, "a.rs");
    assert_eq!(child.line, 2);
    assert!(child.children.is_empty());
    assert_eq!(value(&text_of(&records[1].output)), value("\"f out\""));

    let parsed = value(&buffered_text(&mut state, "out.json"));
    assert_eq!(parsed.as_array().unwrap().len(), 2);
    assert_eq!(parsed[1]["root_node"]["children"][0], parsed[0]["root_node"]);
}

#[test]
fn a_streamed_trace_reads_back_as_an_array() {
    let mut state = TracerState::new();
    let mut file = start_stream(&mut state, "out/trace.json");
    assert_eq!(file, "[\n");
    assert!(state.is_stream_open());
    let n = 4;
    for i in 0..n {
        enter(&mut state, 1, "f", "a.rs", i);
        stream_record(&mut state, 1, &mut file, "{\"i\": 1}");
        exit(&mut state, 1);
    }
    assert_eq!(state.streamed_count(), 4);
    // Nothing of the stream is kept in memory.
    assert_eq!(get_stats(&state).0, 0);
    match finalize(&mut state, "out/trace.json") {
        FinalizePlan::CloseStream { close_with, stream_path, copy_to } => {
            assert_eq!(close_with, "\n]\n");
            assert_eq!(stream_path, "out/trace.json");
            assert_eq!(copy_to, None);
            file.push_str(&close_with);
        }
        other => panic!("unexpected plan: {:?}", other),
    }
    assert!(state.finalize_done(Ok(())).is_ok());
    assert!(!state.is_stream_open());

    let parsed = value(&file);
    let array = parsed.as_array().unwrap();
    assert_eq!(array.len(), 4);
    for (i, item) in array.iter().enumerate() {
        assert!(item.is_object());
        assert_eq!(item["root_node"]["line"], value(&i.to_string()));
        assert_eq!(item["inputs"], value("{\"i\":1}"));
    }
}

#[test]
fn an_empty_stream_is_an_empty_array() {
    let mut state = TracerState::new();
    let mut file = start_stream(&mut state, "t.json");
    match finalize(&mut state, "t.json") {
        FinalizePlan::CloseStream { close_with, .. } => file.push_str(&close_with),
        other => panic!("unexpected plan: {:?}", other),
    }
    assert_eq!(file, "[\n\n]\n");
    assert_eq!(value(&file), value("[]"));
}

#[test]
fn finalize_copies_a_stream_to_another_path() {
    let mut state = TracerState::new();
    start_stream(&mut state, "a.json");
    match finalize(&mut state, "b.json") {
        FinalizePlan::CloseStream { stream_path, copy_to, .. } => {
            assert_eq!(stream_path, "a.json");
            assert_eq!(copy_to, Some("b.json".to_string()));
        }
        other => panic!("unexpected plan: {:?}", other),
    }
    // The file is closed now: a second finalize has nothing to write.
    assert!(matches!(finalize(&mut state, "b.json"), FinalizePlan::Nothing));
}

#[test]
fn a_stream_cut_off_by_a_crash_is_closed_or_repaired() {
    let mut state = TracerState::new();
    let mut file = start_stream(&mut state, "t.json");
    enter(&mut state, 1, "f", "a.rs", 1);
    stream_record(&mut state, 1, &mut file, "{\"n\": 1}");
    enter(&mut state, 1, "g", "a.rs", 2);
    stream_record(&mut state, 1, &mut file, "{\"n\": 2}");

    // Without the hook the file is a cut-off array that a closing bracket
    // repairs.
    assert!(serde_json::from_str::<serde_json::Value>(&file).is_err());
    let repaired = format!("{}]", file);
    assert_eq!(value(&repaired).as_array().unwrap().len(), 2);

    match emergency_save(&mut state).unwrap() {
        EmergencyPlan::CloseStream { close_with } => file.push_str(&close_with),
        other => panic!("unexpected plan: {:?}", other),
    }
    assert!(!state.is_stream_open());
    let parsed = value(&file);
    let array = parsed.as_array().unwrap();
    assert_eq!(array.len(), 2);
    assert_eq!(array[0]["inputs"], value("{\"n\":1}"));
    assert_eq!(array[1]["inputs"], value("{\"n\":2}"));
    assert_eq!(array[1]["root_node"]["name"], value("\"g\""));

    // The file is closed: there is nothing more to save.
    assert!(matches!(emergency_save(&mut state).unwrap(), EmergencyPlan::Nothing));
}

#[test]
fn emergency_save_writes_the_buffer_to_the_emergency_file() {
    let mut state = TracerState::new();
    assert!(matches!(emergency_save(&mut state).unwrap(), EmergencyPlan::Nothing));
    enter(&mut state, 1, "f", "a.rs", 1);
    record_function_call(&mut state, 1, &value("1"), &value("2"));
    match emergency_save(&mut state).unwrap() {
        EmergencyPlan::WriteFile { path, contents } => {
            assert_eq!(path, "emergency_trace_backup.json");
            assert_eq!(value(&contents).as_array().unwrap().len(), 1);
        }
        other => panic!("unexpected plan: {:?}", other),
    }
    // The buffer is kept.
    assert_eq!(get_stats(&state).0, 1);
}

#[test]
fn switching_sinks_keeps_the_records_already_emitted() {
    let mut state = TracerState::new();
    enter(&mut state, 1, "f", "a.rs", 1);
    for _ in 0..3 {
        record_function_call(&mut state, 1, &value("1"), &value("2"));
    }
    assert_eq!(get_stats(&state), (3, 1));

    // Buffer to stream: the buffer stays.
    let mut file = start_stream(&mut state, "t.json");
    assert_eq!(get_stats(&state).0, 3);
    stream_record(&mut state, 1, &mut file, "{}");
    stream_record(&mut state, 1, &mut file, "{}");
    assert_eq!(get_stats(&state).0, 3);

    // Stream to buffer: the file is to be closed, with what it holds.
    let plan = state.set_output_mode(&OutputMode::Memory);
    assert_eq!(plan.close_with, Some("\n]\n".to_string()));
    assert_eq!(plan.open_path, None);
    file.push_str(&plan.close_with.unwrap());
    assert_eq!(value(&file).as_array().unwrap().len(), 2);
    assert!(matches!(state.output_mode(), OutputMode::Memory));
    assert!(!state.is_stream_open());
    assert_eq!(get_stats(&state).0, 3);
    record_function_call(&mut state, 1, &value("1"), &value("2"));
    assert_eq!(get_stats(&state).0, 4);

    // Stream to stream: the old file is closed before the new one opens.
    start_stream(&mut state, "u.json");
    let config = AutoSaveConfig::new("v.json".to_string());
    let plan = enable_auto_save(&mut state, &config);
    assert_eq!(plan.close_with, Some("\n]\n".to_string()));
    assert_eq!(plan.open_path, Some("v.json".to_string()));
    assert_eq!(plan.header, "[\n");
    let hooks = auto_save_enabled(&mut state, &config, Ok(())).unwrap();
    assert_eq!(hooks, HookPlan { panic_hook: true, exit_hook: true });
    assert_eq!(state.streamed_count(), 0);
    assert_eq!(get_stats(&state).0, 4);
}

#[test]
fn buffered_records_are_counted() {
    let mut state = TracerState::new();
    enter(&mut state, 1, "f", "a.rs", 1);
    for n in 0..25 {
        assert_eq!(get_stats(&state).0, n);
        record_function_call(&mut state, 1, &value("1"), &value("2"));
    }
    assert_eq!(get_stats(&state), (25, 1));
}

#[test]
fn a_second_finalize_writes_an_empty_array() {
    let mut state = TracerState::new();
    enter(&mut state, 1, "f", "a.rs", 1);
    record_function_call(&mut state, 1, &value("1"), &value("2"));
    exit(&mut state, 1);
    let first = buffered_text(&mut state, "out.json");
    assert_eq!(value(&first).as_array().unwrap().len(), 1);
    assert!(state.finalize_done(Ok(())).is_ok());
    assert_eq!(get_stats(&state).0, 0);
    let second = buffered_text(&mut state, "out.json");
    assert_eq!(second, "[]");
    assert!(state.finalize_done(Ok(())).is_ok());
}

#[test]
fn a_failed_finalize_keeps_the_buffer() {
    let mut state = TracerState::new();
    enter(&mut state, 1, "f", "a.rs", 1);
    record_function_call(&mut state, 1, &value("1"), &value("2"));
    buffered_text(&mut state, "out.json");
    match state.finalize_done(Err("disk full".to_string())) {
        Err(TraceError::Io(m)) => assert_eq!(m, "disk full"),
        other => panic!("unexpected: {:?}", other),
    }
    assert_eq!(get_stats(&state).0, 1);
}

#[test]
fn a_failed_write_falls_back_to_the_buffer() {
    let mut state = TracerState::new();
    start_stream(&mut state, "t.json");
    enter(&mut state, 1, "f", "a.rs", 1);
    match record_function_call(&mut state, 1, &value("1"), &value("2")) {
        RecordOutcome::Append { record, .. } => state.stream_event_written(record, false),
        other => panic!("unexpected outcome: {:?}", other),
    }
    assert_eq!(state.streamed_count(), 0);
    assert_eq!(get_stats(&state).0, 1);
    assert_eq!(state.buffered_records()[0].root_node.name, "f");
    // The next record is the first of the file still: no separator.
    match record_function_call(&mut state, 1, &value("1"), &value("2")) {
        RecordOutcome::Append { chunk, .. } => assert!(chunk.starts_with("{\n")),
        other => panic!("unexpected outcome: {:?}", other),
    }
}

#[test]
fn a_stream_that_cannot_be_opened_changes_nothing() {
    let mut state = TracerState::new();
    let config = AutoSaveConfig::new("/no/such/t.json".to_string());
    enable_auto_save(&mut state, &config);
    match auto_save_enabled(&mut state, &config, Err("denied".to_string())) {
        Err(TraceError::Io(m)) => assert_eq!(m, "denied"),
        other => panic!("unexpected: {:?}", other),
    }
    assert!(matches!(state.output_mode(), OutputMode::Memory));
    assert!(!state.is_stream_open());
    enter(&mut state, 1, "f", "a.rs", 1);
    let outcome = record_function_call(&mut state, 1, &value("1"), &value("2"));
    assert!(matches!(outcome, RecordOutcome::Buffered));
}

#[test]
fn a_closed_stream_keeps_its_records_in_the_buffer() {
    let mut state = TracerState::new();
    start_stream(&mut state, "t.json");
    finalize(&mut state, "t.json");
    state.finalize_done(Ok(())).unwrap();
    enter(&mut state, 1, "f", "a.rs", 1);
    let outcome = record_function_call(&mut state, 1, &value("1"), &value("2"));
    assert!(matches!(outcome, RecordOutcome::Buffered));
    assert!(matches!(state.output_mode(), OutputMode::Stream { .. }));
    assert!(!state.is_stream_open());
    assert_eq!(state.streamed_count(), 0);
    let records = state.buffered_records();
    assert_eq!(records.len(), 1);
    assert_eq!(records[0].root_node.name, "f");
    assert_eq!(records[0].thread_id, "ThreadId(1)");
    assert!(is_utc_timestamp_text(&records[0].timestamp_utc));
}

#[test]
fn records_are_stamped_in_utc() {
    let mut state = TracerState::new();
    enter(&mut state, 1, "f", "a.rs", 1);
    record_function_call(&mut state, 1, &value("1"), &value("2"));
    record_top_level_call(&mut state, 1, &value("1"), &value("2"));
    let records = state.buffered_records();
    assert_eq!(records.len(), 2);
    for record in records {
        let stamp = &record.timestamp_utc;
        assert!(is_utc_timestamp_text(stamp), "{}", stamp);
        assert!(stamp.ends_with("+00:00"));
        assert!(stamp.as_str() > "2000-01-01T00:00:00+00:00", "{}", stamp);
    }
}

#[test]
fn the_text_of_a_streamed_record() {
    let mut state = TracerState::new();
    start_stream(&mut state, "t.json");
    enter(&mut state, 7, "f", "src/a.rs", 10);
    enter(&mut state, 7, "g", "src/b.rs", 4000000000);
    exit(&mut state, 7);
    let outcome = state.record_at(
        7,
        "2024-05-06T07:08:09.123456789+00:00".to_string(),
        Encoded::Text("{\n  \"x\": 1,\n  \"y\": [\n    2\n  ]\n}".to_string()),
        Encoded::Text("2".to_string()),
    );
    let expected = r#"{
  "timestamp_utc": "2024-05-06T07:08:09.123456789+00:00",
  "thread_id": "ThreadId(7)",
  "root_node": {
    "name": "f",
    "file": "src/a.rs",
    "line": 10,
    "children": [
      {
        "name": "g",
        "file": "src/b.rs",
        "line": 4000000000,
        "children": []
      }
    ]
  },
  "inputs": {
    "x": 1,
    "y": [
      2
    ]
  },
  "output": 2
}"#;
    match outcome {
        RecordOutcome::Append { chunk, record } => {
            assert_eq!(chunk, expected);
            state.stream_event_written(record, true);
        }
        other => panic!("unexpected outcome: {:?}", other),
    }
    let outcome = state.record_at(
        7,
        "t".to_string(),
        Encoded::Text("null".to_string()),
        Encoded::Text("null".to_string()),
    );
    match outcome {
        RecordOutcome::Append { chunk, .. } => {
            assert!(chunk.starts_with(",\n{\n  \"timestamp_utc\": \"t\",\n"));
        }
        other => panic!("unexpected outcome: {:?}", other),
    }
}

#[test]
fn the_text_of_a_buffer() {
    let mut state = TracerState::new();
    enter(&mut state, 1, "f", "a.rs", 0);
    state.record_at(
        1,
        "t1".to_string(),
        Encoded::Text("[\n  1\n]".to_string()),
        Encoded::Text("null".to_string()),
    );
    state.record_at(
        1,
        "t2".to_string(),
        Encoded::Text("{}".to_string()),
        Encoded::Text("true".to_string()),
    );
    let expected = r#"[
  {
    "timestamp_utc": "t1",
    "thread_id": "ThreadId(1)",
    "root_node": {
      "name": "f",
      "file": "a.rs",
      "line": 0,
      "children": []
    },
    "inputs": [
      1
    ],
    "output": null
  },
  {
    "timestamp_utc": "t2",
    "thread_id": "ThreadId(1)",
    "root_node": {
      "name": "f",
      "file": "a.rs",
      "line": 0,
      "children": []
    },
    "inputs": {},
    "output": true
  }
]"#;
    assert_eq!(buffered_text(&mut state, "out.json"), expected);
}

#[test]
fn strings_are_escaped_as_json_asks() {
    let mut state = TracerState::new();
    let name = "q\"b\\n\nt\tr\rb\u{8}f\u{c}c\u{1}\u{1f}d\u{7f}é\u{2028}";
    enter(&mut state, 1, name, "C:\\src\\a.rs", 1);
    record_function_call(&mut state, 1, &value("\"a\\nb\""), &value("null"));
    let text = buffered_text(&mut state, "out.json");
    assert!(text.contains(
        "\"name\": \"q\\\"b\\\\n\\nt\\tr\\rb\\bf\\fc\\u0001\\u001fd\u{7f}é\u{2028}\","
    ));
    assert!(text.contains("\"file\": \"C:\\\\src\\\\a.rs\","));
    let parsed = value(&text);
    assert_eq!(parsed[0]["root_node"]["name"].as_str().unwrap(), name);
    assert_eq!(parsed[0]["root_node"]["file"].as_str().unwrap(), "C:\\src\\a.rs");
    assert_eq!(parsed[0]["inputs"].as_str().unwrap(), "a\nb");
}

#[test]
fn values_keep_their_shape_in_the_file() {
    let mut state = TracerState::new();
    enter(&mut state, 1, "f", "a.rs", 1);
    let inputs = value("{\"list\": [1, 2, {\"k\": [\"line\\nbreak\", null, 1.5]}], \"s\": \"x\"}");
    let output = value("[[], {}, [[1]]]");
    record_function_call(&mut state, 1, &inputs, &output);
    let parsed = value(&buffered_text(&mut state, "out.json"));
    assert_eq!(parsed[0]["inputs"], inputs);
    assert_eq!(parsed[0]["output"], output);
}

#[test]
fn a_record_without_text_is_refused_at_finalize() {
    let mut state = TracerState::new();
    enter(&mut state, 1, "f", "a.rs", 1);
    state.record_at(
        1,
        "t".to_string(),
        Encoded::Failed("key must be a string".to_string()),
        Encoded::Text("null".to_string()),
    );
    match finalize(&mut state, "out.json") {
        FinalizePlan::Refused { error: TraceError::Serialization(m) } => {
            assert_eq!(m, "key must be a string");
        }
        other => panic!("unexpected plan: {:?}", other),
    }
    assert_eq!(get_stats(&state).0, 1);
    assert!(emergency_save(&mut state).is_err());
}

#[test]
fn a_record_without_text_goes_to_the_buffer_of_a_stream() {
    let mut state = TracerState::new();
    start_stream(&mut state, "t.json");
    enter(&mut state, 1, "f", "a.rs", 1);
    let outcome = state.record_at(
        1,
        "t".to_string(),
        Encoded::Text("null".to_string()),
        Encoded::Failed("no".to_string()),
    );
    assert!(matches!(outcome, RecordOutcome::Buffered));
    assert_eq!(get_stats(&state).0, 1);
    assert_eq!(state.streamed_count(), 0);
}

#[test]
fn threads_keep_their_own_stacks() {
    let mut state = TracerState::new();
    enter(&mut state, 1, "a", "m.rs", 1);
    enter(&mut state, 2, "b", "m.rs", 2);
    enter(&mut state, 1, "c", "m.rs", 3);
    exit(&mut state, 2);
    assert_eq!(state.open_calls(1), 2);
    assert_eq!(state.open_calls(2), 0);
    assert_eq!(state.open_calls(3), 0);
    exit(&mut state, 1);
    let top = state.top_call(1).unwrap();
    assert_eq!(top.name, "a");
    assert_eq!(top.children.len(), 1);
    assert_eq!(top.children[0].name, "c");
    enter(&mut state, 18446744073709551615, "z", "m.rs", 1);
    record_function_call(&mut state, 18446744073709551615, &value("1"), &value("2"));
    assert_eq!(state.buffered_records()[0].thread_id, "ThreadId(18446744073709551615)");
    assert_eq!(get_stats(&state), (1, 3));
}

#[test]
fn thread_labels() {
    assert_eq!(label_of(0), "ThreadId(0)");
    assert_eq!(label_of(9), "ThreadId(9)");
    assert_eq!(label_of(10), "ThreadId(10)");
    assert_eq!(label_of(1234567890), "ThreadId(1234567890)");
}

#[test]
fn clear_forgets_everything() {
    let mut state = TracerState::new();
    assert_eq!(clear(&mut state), None);
    enter(&mut state, 1, "f", "a.rs", 1);
    enter(&mut state, 2, "g", "a.rs", 1);
    record_function_call(&mut state, 1, &value("1"), &value("2"));
    let mut file = start_stream(&mut state, "t.json");
    stream_record(&mut state, 1, &mut file, "{}");
    assert_eq!(clear(&mut state), Some("]\n".to_string()));
    assert_eq!(get_stats(&state), (0, 0));
    assert_eq!(state.open_calls(1), 0);
    assert_eq!(state.streamed_count(), 0);
    assert!(!state.is_stream_open());
    assert!(matches!(state.output_mode(), OutputMode::Memory));
    assert_eq!(clear(&mut state), None);
}

#[test]
fn init_can_be_repeated() {
    let mut state = TracerState::new();
    assert!(init(&mut state).is_ok());
    assert!(init(&mut state).is_ok());
    assert_eq!(get_stats(&state), (0, 0));
}

#[test]
fn auto_save_is_asked_for_once() {
    let mut state = TracerState::new();
    assert!(ensure_auto_save_initialized(&mut state));
    assert!(!ensure_auto_save_initialized(&mut state));
    assert!(!ensure_auto_save_initialized(&mut state));
    clear(&mut state);
    assert!(!ensure_auto_save_initialized(&mut state));
}

#[test]
fn error_messages() {
    assert_eq!(TraceError::Io("gone".to_string()).message(), "IO error: gone");
    assert_eq!(
        TraceError::Serialization("bad".to_string()).message(),
        "Serialization error: bad"
    );
    assert_eq!(TraceError::LockPoisoned.message(), "Lock was poisoned");
    assert_eq!(
        TraceError::TracingSetup("late".to_string()).message(),
        "Tracing setup error: late"
    );
}

#[test]
fn call_nodes_are_copied_with_or_without_children() {
    let mut state = TracerState::new();
    enter(&mut state, 1, "f", "a.rs", 1);
    enter(&mut state, 1, "g", "a.rs", 2);
    exit(&mut state, 1);
    let top = state.top_call(1).unwrap();
    let deep = top.snapshot();
    assert_eq!(deep.children.len(), 1);
    assert_eq!(deep.children[0].name, "g");
    let shallow = top.clone();
    assert_eq!(shallow.name, "f");
    assert_eq!(shallow.file, "a.rs");
    assert_eq!(shallow.line, 1);
    assert!(shallow.children.is_empty());
}

#[test]
fn records_can_be_rendered_one_by_one() {
    let record = CallData {
        timestamp_utc: "t".to_string(),
        thread_id: "ThreadId(1)".to_string(),
        root_node: rustforger_tracer::trace_data::CallNode::leaf("f", "a.rs", 3),
        inputs: Encoded::Text("1".to_string()),
        output: Encoded::Text("2".to_string()),
    };
    let state = TracerState::new();
    // No file is open: nothing to append.
    assert_eq!(state.write_stream_event(&record).unwrap(), None);
    let first = rustforger_tracer::json::render_stream_chunk(0, &record).unwrap();
    let later = rustforger_tracer::json::render_stream_chunk(5, &record).unwrap();
    assert_eq!(later, format!(",\n{}", first));
    assert_eq!(value(&first)["root_node"]["line"], value("3"));
}

#[test]
fn control_characters_are_escaped_each_in_its_way() {
    for n in 0u32..0x80 {
        let c = char::from_u32(n).unwrap();
        let name = format!("a{}b", c);
        let mut state = TracerState::new();
        enter_dynamic(&mut state, 1, &name, "f.rs", 1);
        state.record_at(
            1,
            "t".to_string(),
            Encoded::Text("null".to_string()),
            Encoded::Text("null".to_string()),
        );
        let text = buffered_text(&mut state, "out.json");
        let escaped = match n {
            8 => "\\b".to_string(),
            9 => "\\t".to_string(),
            10 => "\\n".to_string(),
            12 => "\\f".to_string(),
            13 => "\\r".to_string(),
            0x22 => "\\\"".to_string(),
            0x5c => "\\\\".to_string(),
            _ if n < 0x20 => format!("\\u{:04x}", n),
            _ => c.to_string(),
        };
        let expected = format!("      \"name\": \"a{}b\",\n", escaped);
        assert!(text.contains(&expected), "U+{:04X}: {}", n, text);
    }
}

#[test]
fn strings_are_written_as_the_json_encoder_writes_them() {
    let mut code: u32 = 0;
    while code < 0x11_0000 {
        let name: String = (code..code + 0x400).filter_map(char::from_u32).collect();
        let mut state = TracerState::new();
        enter_dynamic(&mut state, 1, &name, "f.rs", 1);
        state.record_at(
            1,
            "t".to_string(),
            Encoded::Text("null".to_string()),
            Encoded::Text("null".to_string()),
        );
        let text = buffered_text(&mut state, "out.json");
        let expected = format!("      \"name\": {},\n", serde_json::to_string(&name).unwrap());
        assert!(text.contains(&expected), "from U+{:04X}", code);
        code += 0x400;
    }
}

#[test]
fn finalize_does_not_copy_a_stream_to_its_own_path() {
    // The same path, written in another way.
    let mut state = TracerState::new();
    start_stream(&mut state, "out/a.json");
    match finalize(&mut state, "out//a.json") {
        FinalizePlan::CloseStream { stream_path, copy_to, .. } => {
            assert_eq!(stream_path, "out/a.json");
            assert_eq!(copy_to, None);
        }
        other => panic!("unexpected plan: {:?}", other),
    }
    let mut state = TracerState::new();
    start_stream(&mut state, "out/a.json");
    match finalize(&mut state, "out/./a.json") {
        FinalizePlan::CloseStream { copy_to, .. } => assert_eq!(copy_to, None),
        other => panic!("unexpected plan: {:?}", other),
    }
    // Another file in the same directory.
    let mut state = TracerState::new();
    start_stream(&mut state, "out/a.json");
    match finalize(&mut state, "out/A.json") {
        FinalizePlan::CloseStream { copy_to, .. } => {
            assert_eq!(copy_to, Some("out/A.json".to_string()))
        }
        other => panic!("unexpected plan: {:?}", other),
    }
}

#[test]
fn finalize_given_whether_the_path_is_the_stream_s_own() {
    let mut state = TracerState::new();
    start_stream(&mut state, "a.json");
    match state.finalize_with("b.json", true) {
        FinalizePlan::CloseStream { close_with, stream_path, copy_to } => {
            assert_eq!(close_with, "\n]\n");
            assert_eq!(stream_path, "a.json");
            assert_eq!(copy_to, None);
        }
        other => panic!("unexpected plan: {:?}", other),
    }
    assert!(!state.is_stream_open());
    let mut state = TracerState::new();
    start_stream(&mut state, "a.json");
    match state.finalize_with("a.json", false) {
        FinalizePlan::CloseStream { copy_to, .. } => {
            assert_eq!(copy_to, Some("a.json".to_string()))
        }
        other => panic!("unexpected plan: {:?}", other),
    }
    let mut state = TracerState::new();
    match state.finalize_with("a.json", true) {
        FinalizePlan::WriteFile { path, contents } => {
            assert_eq!(path, "a.json");
            assert_eq!(contents, "[]");
        }
        other => panic!("unexpected plan: {:?}", other),
    }
}

#[test]
fn thread_numbers() {
    assert_eq!(thread_number("ThreadId(1)"), 1);
    assert_eq!(thread_number("ThreadId(42)"), 42);
    assert_eq!(thread_number("ThreadId(0)"), 0);
    assert_eq!(thread_number("ThreadId(007)"), 7);
    assert_eq!(thread_number("ThreadId()"), 0);
    assert_eq!(thread_number(""), 0);
    assert_eq!(thread_number("1a2b3"), 123);
    assert_eq!(thread_number("+5"), 5);
    assert_eq!(thread_number("-5"), 5);
    assert_eq!(thread_number("ThreadId(18446744073709551615)"), u64::MAX);
    assert_eq!(thread_number("ThreadId(18446744073709551616)"), 0);
    assert_eq!(thread_number("ThreadId(٣)"), 0);
    assert_eq!(label_of(thread_number("ThreadId(12)")), "ThreadId(12)");
}
