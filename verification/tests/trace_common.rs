use rustforger_tracer::trace_common::{
    args_json, debug_placeholder_text, is_utc_timestamp_text, placeholder_text,
    serialization_failure_text, TraceData,
};

fn value(text: &str) -> serde_json::Value {
    serde_json::from_str(text).unwrap()
}

#[test]
fn creation() {
    let args = value("{\"param1\": 42, \"param2\": \"test\"}");
    let trace = TraceData::new("test_function", args.clone());

    assert_eq!(trace.function_name, "test_function");
    assert_eq!(trace.args, args);
    assert_eq!(trace.result, None);
}

#[test]
fn with_result() {
    let args = value("{\"input\": \"test\"}");
    let result = value("{\"output\": \"success\"}");

    let trace = TraceData::new("test_function", args.clone()).with_result(result.clone());

    assert_eq!(trace.function_name, "test_function");
    assert_eq!(trace.args, args);
    assert_eq!(trace.result, Some(result));
}

#[test]
fn set_result() {
    let args = value("{\"input\": \"test\"}");
    let result = value("{\"output\": \"success\"}");

    let mut trace = TraceData::new("test_function", args.clone());
    trace.set_result(result.clone());

    assert_eq!(trace.result, Some(result));
}

#[test]
fn trace_data_is_stamped_with_the_time() {
    let trace = TraceData::new("f", value("null"));
    // An RFC 3339 stamp in UTC: date, `T`, time, offset.
    assert!(trace.timestamp.len() >= 20);
    assert_eq!(&trace.timestamp[4..5], "-");
    assert_eq!(&trace.timestamp[10..11], "T");
    assert!(trace.timestamp.ends_with("+00:00"));
}

#[test]
fn placeholders() {
    assert_eq!(placeholder_text("alloc::rc::Rc<i32>"), "<unserializable: alloc::rc::Rc<i32>>");
    assert_eq!(
        debug_placeholder_text("NonSerializableStruct", "NonSerializableStruct { data: [1, 2, 3] }"),
        "<debug: NonSerializableStruct = NonSerializableStruct { data: [1, 2, 3] }>"
    );
    assert_eq!(
        serialization_failure_text("Weird", "key must be a string"),
        "<serialization_failed: Weird - key must be a string>"
    );
}

#[test]
fn args_json_macro() {
    let param1 = 42i32;
    let param2 = "test".to_string();

    let json = args_json(vec![
        ("param1".to_string(), serde_json::to_value(&param1).unwrap()),
        ("param2".to_string(), serde_json::to_value(&param2).unwrap()),
        (
            "param3".to_string(),
            serde_json::Value::String(placeholder_text("alloc::rc::Rc<alloc::vec::Vec<i32>>")),
        ),
    ]);

    assert!(json.is_object());
    let obj = json.as_object().unwrap();

    assert_eq!(obj.get("param1"), Some(&value("42")));
    assert_eq!(obj.get("param2"), Some(&value("\"test\"")));

    let param3_value = obj.get("param3").unwrap();
    if let serde_json::Value::String(s) = param3_value {
        assert!(s.contains("unserializable"));
    } else {
        panic!("Expected unserializable placeholder for param3");
    }
}

#[test]
fn args_json_empty() {
    let json = args_json(vec![]);
    assert!(json.is_object());
    assert_eq!(json.as_object().unwrap().len(), 0);
}

#[test]
fn args_json_trailing_comma() {
    let param1 = 42i32;
    let param2 = "test".to_string();

    let json = args_json(vec![
        ("param1".to_string(), serde_json::to_value(&param1).unwrap()),
        ("param2".to_string(), serde_json::to_value(&param2).unwrap()),
    ]);

    assert!(json.is_object());
    let obj = json.as_object().unwrap();
    assert_eq!(obj.len(), 2);
}

#[test]
fn the_last_value_under_a_name_stays() {
    let json = args_json(vec![
        ("x".to_string(), value("1")),
        ("y".to_string(), value("2")),
        ("x".to_string(), value("3")),
    ]);
    assert_eq!(json, value("{\"x\": 3, \"y\": 2}"));
}

#[test]
fn the_shape_of_a_timestamp() {
    for stamp in [
        "2024-03-09T07:05:01+00:00",
        "2024-03-09T07:05:01.250+00:00",
        "2024-03-09T07:05:01.250001+00:00",
        "2024-03-09T07:05:01.250001007+00:00",
        "1970-01-01T00:00:00+00:00",
        "9999-12-31T23:59:60+00:00",
        "+10000-01-01T00:00:00+00:00",
        "+262142-12-31T23:59:59.999999999+00:00",
    ] {
        assert!(is_utc_timestamp_text(stamp), "{}", stamp);
    }
    for stamp in [
        "",
        "2024",
        "2024-03-09",
        "2024-03-09T07:05:01",
        "2024-03-09T07:05:01Z",
        "2024-03-09T07:05:01+01:00",
        "2024-03-09T07:05:01-00:00",
        "2024-03-09 07:05:01+00:00",
        "2024-03-09t07:05:01+00:00",
        "2024-3-09T07:05:01+00:00",
        "2024-03-09T7:05:01+00:00",
        "2024-03-09T07:05:1+00:00",
        "2024-03-09T07:05:01.+00:00",
        "2024-03-09T07:05:01.2+00:00",
        "2024-03-09T07:05:01.25+00:00",
        "2024-03-09T07:05:01.2500+00:00",
        "2024-03-09T07:05:01,250+00:00",
        "2024-03-09T07:05:01.25a+00:00",
        "024-03-09T07:05:01+00:00",
        "20024-03-09T07:05:01+00:00",
        "+2024-03-09T07:05:01+00:00",
        "-2024-03-09T07:05:01+00:00",
        "+1000a-03-09T07:05:01+00:00",
        "2o24-03-09T07:05:01+00:00",
        "2024-03-09T07:05:01+00:00 ",
        " 2024-03-09T07:05:01+00:00",
        "2024-03-09T07:05:01+00:0",
        "２０２４-03-09T07:05:01+00:00",
        "2024-0٣-09T07:05:01+00:00",
    ] {
        assert!(!is_utc_timestamp_text(stamp), "{}", stamp);
    }
}

#[test]
fn a_record_is_stamped_when_it_is_made() {
    let data = TraceData::new("f", value("{}"));
    assert!(is_utc_timestamp_text(&data.timestamp), "{}", data.timestamp);
    assert!(data.timestamp.as_str() > "2000-01-01T00:00:00+00:00");
    let later = TraceData::new("g", value("{}"));
    assert!(is_utc_timestamp_text(&later.timestamp));
}
