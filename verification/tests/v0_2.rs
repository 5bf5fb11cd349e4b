use cloudevents::{CloudEventBuilder, Data, ExtensionValue, JsonValue};

#[test]
fn v0_2_string_data_can_be_created_from_str() {
    let content = "string content";
    let data = Data::from_string(content);
    assert_eq!(data, Data::StringOrBinary(content.to_owned()));
}

#[test]
fn v0_2_binary_data_can_be_created_from_slice() {
    let data = Data::from_binary(b"this is binary");
    assert_eq!(
        data,
        Data::StringOrBinary("dGhpcyBpcyBiaW5hcnk=".to_owned())
    )
}

#[test]
fn v0_2_object_data_can_be_created_from_serializable() {
    let object = JsonValue::Object(vec![(
        "content".to_owned(),
        JsonValue::Text("content".to_owned()),
    )]);
    let data = Data::from_serializable(object).unwrap();
    let expected = JsonValue::Object(vec![(
        "content".to_owned(),
        JsonValue::Text("content".to_owned()),
    )]);
    assert_eq!(data, Data::Object(expected));
}

#[test]
fn v0_2_extension_string_data_can_be_created_from_str() {
    let content = "string content";
    let data = ExtensionValue::from_string(content);
    assert_eq!(data, ExtensionValue::String(content.to_owned()));
}

#[test]
fn v0_2_extension_object_data_can_be_created_from_serializable() {
    let object = JsonValue::Object(vec![(
        "content".to_owned(),
        JsonValue::Text("content".to_owned()),
    )]);
    let data = ExtensionValue::from_serializable(object).unwrap();
    let expected = JsonValue::Object(vec![(
        "content".to_owned(),
        JsonValue::Text("content".to_owned()),
    )]);
    assert_eq!(data, ExtensionValue::Object(expected));
}

#[test]
fn v0_2_builder_works() {
    let event = CloudEventBuilder::v0_2()
        .event_id("id")
        .source("http://www.google.com")
        .event_type("test type")
        .contenttype("application/json")
        .build()
        .unwrap();

    assert_eq!(event.event_type(), "test type");
    assert_eq!(event.source(), "http://www.google.com");
    assert_eq!(event.event_id(), "id");
    assert_eq!(event.extensions(), None);
    assert_eq!(event.data(), None);
    assert_eq!(event.event_time(), None);
    assert_eq!(event.contenttype(), Some("application/json"));
    assert_eq!(event.schema_url(), None);
}

#[test]
fn v0_2_builder_macro_works() {
    let event = CloudEventBuilder::v0_2()
        .event_type("test type")
        .source("http://www.google.com")
        .event_id("id")
        .contenttype("application/json")
        .data(Data::from_string("test"))
        .build()
        .unwrap();

    assert_eq!(event.event_type(), "test type");
    assert_eq!(event.source(), "http://www.google.com");
    assert_eq!(event.event_id(), "id");
    assert_eq!(event.extensions(), None);
    assert_eq!(event.data(), Some(&Data::StringOrBinary("test".to_owned())));
    assert_eq!(event.event_time(), None);
    assert_eq!(event.contenttype(), Some("application/json"));
    assert_eq!(event.schema_url(), None);
}

#[test]
fn v0_2_source_is_allowed_to_be_a_relative_uri() {
    let event = CloudEventBuilder::v0_2()
        .event_id("id")
        .source("/cloudevents/spec/pull/123")
        .event_type("test type")
        .build()
        .unwrap();

    assert_eq!(event.source(), "/cloudevents/spec/pull/123");
}

#[test]
fn v0_2_source_is_allowed_to_be_a_urn() {
    let event = CloudEventBuilder::v0_2()
        .event_id("id")
        .source("urn:event:from:myapi/resourse/123")
        .event_type("test type")
        .build()
        .unwrap();

    assert_eq!(event.source(), "urn:event:from:myapi/resourse/123");
}

#[test]
fn v0_2_source_is_allowed_to_be_a_mailto() {
    let event = CloudEventBuilder::v0_2()
        .event_id("id")
        .source("mailto:cncf-wg-serverless@lists.cncf.io")
        .event_type("test type")
        .build()
        .unwrap();

    assert_eq!(event.source(), "mailto:cncf-wg-serverless@lists.cncf.io");
}

#[test]
fn serialize() {
    let event = CloudEventBuilder::v0_2()
        .event_type("test type")
        .source("http://www.google.com")
        .event_id("id")
        .contenttype("application/json")
        .data(Data::from_string("\"test\""))
        .build()
        .unwrap();

    let json = event.to_json_string();
    assert_eq!(json, "{\"type\":\"test type\",\"specversion\":\"0.2\",\"source\":\"http://www.google.com\",\"id\":\"id\",\"contenttype\":\"application/json\",\"data\":\"\\\"test\\\"\"}");
}
