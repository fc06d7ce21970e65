use cookie_commander::prettify::{get_prettifier, JsonPrettifier, PrettifyError, Prettifier};

#[test]
fn test_json_prettifier_can_prettify() {
    let prettifier = JsonPrettifier;

    // Single-line JSON
    assert!(prettifier.can_prettify(r#"{"a": 1, "b": "hello"}"#));

    // Empty
    assert!(!prettifier.can_prettify(""));

    // Multi-line JSON
    assert!(!prettifier.can_prettify(
        r#"{
  "a": 1
}"#
    ));
}

#[test]
fn test_json_prettifier_format() {
    let prettifier = JsonPrettifier;
    let minified = r#"{"a":1,"b":[true,false]}"#;
    let prettified = prettifier.prettify(minified).unwrap();

    // Verify it parsed and formatted
    let expected = serde_json::to_string_pretty(
        &serde_json::from_str::<serde_json::Value>(minified).unwrap(),
    )
    .unwrap();
    assert_eq!(prettified, expected);

    // Test invalid JSON
    assert!(prettifier.prettify(r#"{"a":1"#).is_err());
}

#[test]
fn test_get_prettifier() {
    assert!(get_prettifier("json").is_some());
    assert!(get_prettifier("JSON").is_some());
    assert!(get_prettifier("txt").is_none());
}

#[test]
fn prettify_lays_out_nested_json() {
    let prettifier = JsonPrettifier;
    let out = prettifier.prettify(r#"{"a":1,"b":[true,false]}"#).unwrap();
    assert_eq!(out, "{\n  \"a\": 1,\n  \"b\": [\n    true,\n    false\n  ]\n}");
}

#[test]
fn prettify_reports_invalid_json() {
    let prettifier = JsonPrettifier;
    assert_eq!(prettifier.prettify("not json"), Err(PrettifyError::InvalidJson));
    assert_eq!(prettifier.prettify(""), Err(PrettifyError::InvalidJson));
}

#[test]
fn can_prettify_ignores_trailing_white_space() {
    let prettifier = JsonPrettifier;
    assert!(prettifier.can_prettify("{\"a\":1}\n"));
    assert!(prettifier.can_prettify("{\"a\":1}\r\n\t  \n"));
    assert!(!prettifier.can_prettify("   \n\t "));
    assert!(!prettifier.can_prettify("{\"a\":1}\n{\"b\":2}"));
    assert!(prettifier.can_prettify("  {\"a\":1}"));
    assert!(prettifier.can_prettify("\n{\"a\":1}"));
    assert!(prettifier.can_prettify("\n\n  {\"a\":1}\n \n"));
    assert!(!prettifier.can_prettify("   "));
    assert!(!prettifier.can_prettify("\n"));
}

#[test]
fn prettifier_lookup_ignores_case_on_any_mix() {
    assert!(get_prettifier("JsOn").is_some());
    assert!(get_prettifier("jsonl").is_none());
    assert!(get_prettifier("").is_none());
    let p = get_prettifier("Json").unwrap();
    assert!(p.can_prettify("[1,2]"));
    assert_eq!(p.prettify("[1,2]").unwrap(), "[\n  1,\n  2\n]");
}
