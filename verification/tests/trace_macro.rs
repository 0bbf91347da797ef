use rustforger_tracer::trace_macro::{
    call_name, extract_generic_inner, is_array_of_primitives, is_known_serializable_test_type,
    is_vec_of_primitives, might_be_serializable, parse_attributes, should_instrument_call,
    PropagateConfig,
};

fn parse_attributes_from_str(attr_str: &str) -> PropagateConfig {
    parse_attributes(attr_str)
}

#[test]
fn test_parse_empty_attributes() {
    let config = parse_attributes_from_str("");
    assert!(!config.enabled);
    assert_eq!(config.max_depth, None);
}

#[test]
fn test_parse_propagate_attribute() {
    let config = parse_attributes_from_str("propagate");
    assert!(config.enabled);
}

#[test]
fn test_parse_max_depth_attribute() {
    let config = parse_attributes_from_str("propagate, max_depth = 5");
    assert!(config.enabled);
    assert_eq!(config.max_depth, Some(5));
}

#[test]
fn test_might_be_serializable_primitives() {
    assert!(might_be_serializable("i32"));

    assert!(might_be_serializable("String"));

    assert!(might_be_serializable("& str"));
}

#[test]
fn test_might_be_serializable_complex() {
    assert!(!might_be_serializable("std :: collections :: HashMap < String , i32 >"));
}

#[test]
fn test_should_instrument_call_disabled() {
    let config = PropagateConfig::default();

    assert!(!should_instrument_call(Some("some_function"), &config));
}

#[test]
fn test_should_instrument_call_enabled() {
    let mut config = PropagateConfig::default();
    config.enabled = true;

    assert!(should_instrument_call(Some("user_function"), &config));
}

#[test]
fn test_should_instrument_call_excluded() {
    let mut config = PropagateConfig::default();
    config.enabled = true;

    assert!(!should_instrument_call(Some("std::process::exit"), &config));
}

#[test]
fn test_extract_function_name_from_call() {
    assert_eq!(call_name("test_function"), "test_function");

    assert_eq!(call_name("module :: function"), "module::function");
}

#[test]
fn default_attribute_config() {
    let config = PropagateConfig::default();
    assert!(!config.enabled);
    assert_eq!(config.exclude_patterns, vec!["std::", "core::", "__rust_"]);
    assert!(config.user_code_only);
    assert_eq!(config.max_depth, None);
}

#[test]
fn attribute_depths() {
    assert_eq!(parse_attributes("max_depth=12").max_depth, Some(12));
    assert_eq!(parse_attributes("max_depth =  7 , propagate").max_depth, Some(7));
    assert_eq!(parse_attributes("max_depth = +3").max_depth, Some(3));
    assert_eq!(parse_attributes("max_depth = 0").max_depth, Some(0));
    assert_eq!(parse_attributes("max_depth").max_depth, None);
    assert_eq!(parse_attributes("max_depth = ").max_depth, None);
    assert_eq!(parse_attributes("max_depth = five").max_depth, None);
    assert_eq!(parse_attributes("max_depth = -1").max_depth, None);
    assert_eq!(parse_attributes("max_depth = 1 2").max_depth, None);
    assert_eq!(parse_attributes("max_depth = 99999999999999999999999").max_depth, None);
    // The first `=` behind the first `max_depth` counts.
    assert_eq!(parse_attributes("depth = 4, max_depth, x = 9").max_depth, Some(9));
    assert_eq!(parse_attributes("max_depth = 1, max_depth = 2").max_depth, Some(1));
    assert!(!parse_attributes("max_depth = 1").enabled);
}

#[test]
fn attribute_excludes() {
    assert_eq!(
        parse_attributes("exclude = \"std::\"").exclude_patterns,
        vec!["std::", "core::", "__rust_", "std::"]
    );
    assert_eq!(
        parse_attributes("exclude = \"tokio::\"").exclude_patterns,
        vec!["std::", "core::", "__rust_"]
    );
    assert_eq!(parse_attributes("std::").exclude_patterns, vec!["std::", "core::", "__rust_"]);
}

#[test]
fn arrays_of_primitives() {
    assert!(is_array_of_primitives("[u8; 4]"));
    assert!(is_array_of_primitives("[ i32 ]"));
    assert!(is_array_of_primitives("[bool ; N]"));
    assert!(!is_array_of_primitives("[String; 2]"));
    assert!(!is_array_of_primitives("[]"));
    assert!(!is_array_of_primitives("["));
    assert!(!is_array_of_primitives("]"));
    assert!(!is_array_of_primitives("u8"));
    assert!(!is_array_of_primitives("[u8; 4] "));
}

#[test]
fn vecs_of_primitives() {
    assert!(is_vec_of_primitives("Vec < u8 >"));
    assert!(is_vec_of_primitives("Vec <String>"));
    assert!(!is_vec_of_primitives("Vec<u8>"));
    assert!(!is_vec_of_primitives("Vec < Vec < u8 > >"));
    assert!(!is_vec_of_primitives("Vec <"));
    assert!(!is_vec_of_primitives("Vec <>"));
}

#[test]
fn generic_inners() {
    assert_eq!(extract_generic_inner("Vec < u8 >", "Vec"), Some(" u8 ".to_string()));
    assert_eq!(extract_generic_inner("Option <>", "Option"), Some("".to_string()));
    assert_eq!(extract_generic_inner("Option <", "Option"), None);
    assert_eq!(extract_generic_inner("Vec < u8 >", "Option"), None);
    assert_eq!(extract_generic_inner("Vec < u8 > x", "Vec"), None);
}

#[test]
fn known_serializable_names() {
    assert!(is_known_serializable_test_type("Person"));
    assert!(is_known_serializable_test_type("SimpleStruct"));
    assert!(is_known_serializable_test_type("TestSerializableThing"));
    assert!(is_known_serializable_test_type("MyOwnSerializable"));
    assert!(!is_known_serializable_test_type("Serializable"));
    assert!(!is_known_serializable_test_type("a::Person"));
    assert!(!is_known_serializable_test_type("TestSerializable<T>"));
    assert!(!is_known_serializable_test_type("&Person"));
    assert!(!is_known_serializable_test_type("Other"));
}

#[test]
fn serializable_types() {
    assert!(might_be_serializable("&str"));
    assert!(might_be_serializable("& String"));
    assert!(might_be_serializable("&  u64 "));
    assert!(might_be_serializable("[f64; 3]"));
    assert!(might_be_serializable("Vec < char >"));
    assert!(might_be_serializable("Option < bool >"));
    assert!(might_be_serializable("TestData"));
    assert!(!might_be_serializable("Option < Vec < u8 > >"));
    assert!(!might_be_serializable("& mut u8"));
    assert!(!might_be_serializable("Rc < u8 >"));
    assert!(!might_be_serializable(""));
}

#[test]
fn instrumented_calls() {
    let mut config = PropagateConfig::default();
    config.enabled = true;
    assert!(should_instrument_call(Some("run"), &config));
    assert!(should_instrument_call(Some("run_2"), &config));
    assert!(should_instrument_call(Some("éé"), &config));
    assert!(!should_instrument_call(None, &config));
    assert!(!should_instrument_call(Some("ab"), &config));
    assert!(!should_instrument_call(Some("_run"), &config));
    assert!(!should_instrument_call(Some("Some"), &config));
    assert!(!should_instrument_call(Some("None"), &config));
    assert!(!should_instrument_call(Some("core::mem::swap"), &config));
    assert!(!should_instrument_call(Some("a::b"), &config));
    assert!(!should_instrument_call(Some("__rust_alloc"), &config));
    assert!(!should_instrument_call(Some("println!"), &config));
    config.exclude_patterns.push("helper".to_string());
    assert!(!should_instrument_call(Some("my_helper_fn"), &config));
    config.exclude_patterns.push("".to_string());
    assert!(!should_instrument_call(Some("run"), &config));
}
