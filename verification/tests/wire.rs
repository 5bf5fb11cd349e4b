use cloudevents::json::{json_to_string, parse_json};
use cloudevents::{ExtensionValue, Extensions, JsonValue, Timestamp};

#[test]
fn writer_renders_each_kind_of_value() {
    assert_eq!(json_to_string(&JsonValue::Null), "null");
    assert_eq!(json_to_string(&JsonValue::Bool(true)), "true");
    assert_eq!(json_to_string(&JsonValue::Bool(false)), "false");
    assert_eq!(json_to_string(&JsonValue::Number("-12.5e3".to_owned())), "-12.5e3");
    assert_eq!(json_to_string(&JsonValue::Text("a\"b\\c".to_owned())), "\"a\\\"b\\\\c\"");
    assert_eq!(json_to_string(&JsonValue::Text("line\nbreak".to_owned())), "\"line\\nbreak\"");
    assert_eq!(
        json_to_string(&JsonValue::Array(vec![JsonValue::Null, JsonValue::Bool(true)])),
        "[null,true]"
    );
    assert_eq!(json_to_string(&JsonValue::Array(vec![])), "[]");
    assert_eq!(json_to_string(&JsonValue::Object(vec![])), "{}");
    assert_eq!(
        json_to_string(&JsonValue::Object(vec![(
            "k".to_owned(),
            JsonValue::Number("1".to_owned())
        )])),
        "{\"k\":1}"
    );
}

#[test]
fn writer_escapes_control_characters() {
    assert_eq!(
        json_to_string(&JsonValue::Text("\u{8}\u{9}\u{a}\u{c}\u{d}\u{1f}".to_owned())),
        "\"\\b\\t\\n\\f\\r\\u001f\""
    );
}

#[test]
fn parser_reads_each_kind_of_value() {
    assert_eq!(parse_json("null"), Some(JsonValue::Null));
    assert_eq!(parse_json(" true "), Some(JsonValue::Bool(true)));
    assert_eq!(parse_json("false"), Some(JsonValue::Bool(false)));
    assert_eq!(parse_json("-12.5e3"), Some(JsonValue::Number("-12.5e3".to_owned())));
    assert_eq!(parse_json("0"), Some(JsonValue::Number("0".to_owned())));
    assert_eq!(parse_json("\"hi\""), Some(JsonValue::Text("hi".to_owned())));
    assert_eq!(
        parse_json("[1, 2]"),
        Some(JsonValue::Array(vec![
            JsonValue::Number("1".to_owned()),
            JsonValue::Number("2".to_owned()),
        ]))
    );
    assert_eq!(parse_json("[]"), Some(JsonValue::Array(vec![])));
    assert_eq!(parse_json("{ }"), Some(JsonValue::Object(vec![])));
    assert_eq!(
        parse_json("{\"a\": false}"),
        Some(JsonValue::Object(vec![("a".to_owned(), JsonValue::Bool(false))]))
    );
}

#[test]
fn parser_decodes_escapes() {
    assert_eq!(
        parse_json("\"a\\\"b\\\\c\\n\\t\\u0041\""),
        Some(JsonValue::Text("a\"b\\c\n\tA".to_owned()))
    );
    assert_eq!(
        parse_json("\"\\uD834\\uDD1E\""),
        Some(JsonValue::Text("\u{1D11E}".to_owned()))
    );
}

#[test]
fn parser_rejects_malformed_documents() {
    assert_eq!(parse_json(""), None);
    assert_eq!(parse_json("nul"), None);
    assert_eq!(parse_json("{"), None);
    assert_eq!(parse_json("[1,]"), None);
    assert_eq!(parse_json("{\"a\":}"), None);
    assert_eq!(parse_json("\"unterminated"), None);
    assert_eq!(parse_json("01"), None);
    assert_eq!(parse_json("1 2"), None);
    assert_eq!(parse_json("\"\\uD834\""), None);
}

#[test]
fn parser_inverts_writer_on_a_nested_document() {
    let doc = JsonValue::Object(vec![
        ("s".to_owned(), JsonValue::Text("x\"y".to_owned())),
        ("n".to_owned(), JsonValue::Number("4.25e-2".to_owned())),
        (
            "l".to_owned(),
            JsonValue::Array(vec![
                JsonValue::Null,
                JsonValue::Object(vec![("k".to_owned(), JsonValue::Bool(false))]),
            ]),
        ),
    ]);
    let text = json_to_string(&doc);
    assert_eq!(parse_json(&text), Some(doc));
}

#[test]
fn timestamp_parse_accepts_rfc3339_and_keeps_the_text() {
    let t = Timestamp::parse("1996-12-19T16:39:57-08:00").unwrap();
    assert_eq!(t.as_rfc3339(), "1996-12-19T16:39:57-08:00");
    assert!(Timestamp::parse("not-a-date").is_err());
    assert!(Timestamp::parse("now").is_err());
}

#[test]
fn timestamp_now_is_valid_rfc3339() {
    let t = Timestamp::now();
    assert!(chrono::DateTime::parse_from_rfc3339(t.as_rfc3339()).is_ok());
}

#[test]
fn extensions_store_and_replace_by_name() {
    let mut m = Extensions::new();
    assert_eq!(m.len(), 0);
    m.set("a", ExtensionValue::from_string("1"));
    m.set("b", ExtensionValue::from_string("2"));
    assert_eq!(m.len(), 2);
    assert_eq!(m.get("a"), Some(&ExtensionValue::String("1".to_owned())));
    m.set("a", ExtensionValue::from_string("3"));
    assert_eq!(m.len(), 2);
    assert_eq!(m.get("a"), Some(&ExtensionValue::String("3".to_owned())));
    assert_eq!(m.get("missing"), None);
}
