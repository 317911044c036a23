use synthia::json_parser::JsonParser;

#[test]
fn test_parse_valid_json() {
    let parser = JsonParser::new();
    let result = parser.parse_robust(r#"{"key": "value"}"#);
    assert!(result.is_ok());
    let json = result.unwrap();
    assert_eq!(json["key"], "value");
}

#[test]
fn test_parse_json_with_trailing_comma_object() {
    let parser = JsonParser::new();
    let result = parser.parse_robust(r#"{"key": "value",}"#);
    assert!(result.is_ok());
    let json = result.unwrap();
    assert_eq!(json["key"], "value");
}

#[test]
fn test_parse_json_with_trailing_comma_array() {
    let parser = JsonParser::new();
    let result = parser.parse_robust(r#"{"items": [1, 2, 3,]}"#);
    assert!(result.is_ok());
    let json = result.unwrap();
    assert_eq!(json["items"][0], 1);
    assert_eq!(json["items"][2], 3);
}

#[test]
fn test_parse_json_in_code_block() {
    let parser = JsonParser::new();
    let markdown = r#"
        Here's the JSON:
        ```json
        {"key": "value"}
        ```
        "#;
    let result = parser.parse_robust(markdown);
    assert!(result.is_ok());
    let json = result.unwrap();
    assert_eq!(json["key"], "value");
}

#[test]
fn test_parse_json_in_code_block_no_language() {
    let parser = JsonParser::new();
    let markdown = r#"
        Here's the JSON:
        ```
        {"key": "value"}
        ```
        "#;
    let result = parser.parse_robust(markdown);
    assert!(result.is_ok());
    let json = result.unwrap();
    assert_eq!(json["key"], "value");
}

#[test]
fn test_parse_json_with_single_quotes() {
    let parser = JsonParser::new();
    let result = parser.parse_robust(r#"{'key': 'value'}"#);
    assert!(result.is_ok());
    let json = result.unwrap();
    assert_eq!(json["key"], "value");
}

#[test]
fn test_parse_json_with_newlines() {
    let parser = JsonParser::new();
    let json_with_newlines = r#"{
            "key": "value",
            "another": "field"
        }"#;
    let result = parser.parse_robust(json_with_newlines);
    assert!(result.is_ok());
    let json = result.unwrap();
    assert_eq!(json["key"], "value");
    assert_eq!(json["another"], "field");
}

#[test]
fn test_parse_complex_malformed_json() {
    let parser = JsonParser::new();
    let malformed = r#"
        {
            'file_path': 'src/main.rs',
            'content': 'Hello world',
        }
        "#;
    let result = parser.parse_robust(malformed);
    assert!(result.is_ok(), "Parse failed: {:?}", result);
    let json = result.unwrap();
    assert_eq!(json["file_path"], "src/main.rs");
    assert_eq!(json["content"], "Hello world");
}

#[test]
fn test_parse_completely_invalid_json() {
    let parser = JsonParser::new();
    let invalid = "This is not JSON at all!";
    let result = parser.parse_robust(invalid);
    assert!(result.is_err());
}

#[test]
fn test_parse_empty_object() {
    let parser = JsonParser::new();
    let result = parser.parse_robust("{}");
    assert!(result.is_ok());
    let json = result.unwrap();
    assert!(json.is_object());
    assert!(json.as_object().unwrap().is_empty());
}

#[test]
fn test_parse_nested_objects() {
    let parser = JsonParser::new();
    let nested = r#"{"outer": {"inner": "value",},}"#;
    let result = parser.parse_robust(nested);
    assert!(result.is_ok());
    let json = result.unwrap();
    assert_eq!(json["outer"]["inner"], "value");
}

#[test]
fn test_parse_array_values() {
    let parser = JsonParser::new();
    let array = r#"{"items": ["a", "b", "c",]}"#;
    let result = parser.parse_robust(array);
    assert!(result.is_ok());
    let json = result.unwrap();
    assert_eq!(json["items"][0], "a");
    assert_eq!(json["items"][2], "c");
}

#[test]
fn test_parse_number_values() {
    let parser = JsonParser::new();
    let numbers = r#"{"count": 42, "price": 19.99,}"#;
    let result = parser.parse_robust(numbers);
    assert!(result.is_ok());
    let json = result.unwrap();
    assert_eq!(json["count"], 42);
    assert_eq!(json["price"], 19.99);
}

#[test]
fn test_parse_boolean_values() {
    let parser = JsonParser::new();
    let booleans = r#"{"active": true, "deleted": false,}"#;
    let result = parser.parse_robust(booleans);
    assert!(result.is_ok());
    let json = result.unwrap();
    assert_eq!(json["active"], true);
    assert_eq!(json["deleted"], false);
}

#[test]
fn test_parse_null_value() {
    let parser = JsonParser::new();
    let with_null = r#"{"value": null,}"#;
    let result = parser.parse_robust(with_null);
    assert!(result.is_ok());
    let json = result.unwrap();
    assert!(json["value"].is_null());
}

#[test]
fn fix_common_errors_repairs_quotes_spaces_and_commas() {
    let parser = JsonParser::new();
    assert_eq!(parser.fix_common_errors("  {'a':  [1,\n2, ],\r}  "), r#"{"a": [1, 2]}"#);
    assert_eq!(parser.fix_common_errors("plain"), "plain");
}

#[test]
fn parse_failure_reports_raw_and_fixed_text() {
    let parser = JsonParser::new();
    let err = parser.parse_robust("not  json").unwrap_err();
    assert_eq!(err, "Failed to parse JSON after all strategies.\nRaw input: not  json\nFixed attempt: not json");
}
