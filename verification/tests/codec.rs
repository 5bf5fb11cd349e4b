use cloudevents::v0_2::CloudEventV0_2;
use cloudevents::v1_0::{CloudEventV1_0, CloudEventV1_0Builder};
use cloudevents::{CloudEvent, CloudEventBuilder, Data, ExtensionValue, Extensions, JsonValue};

#[test]
fn encoding_matches_spec_example() {
    let event = CloudEventBuilder::v1_0()
        .event_type("test type")
        .source("http://www.google.com")
        .event_id("id")
        .datacontenttype("application/json")
        .build()
        .unwrap();
    assert_eq!(
        event.to_json_string(),
        "{\"type\":\"test type\",\"specversion\":\"1.0\",\"source\":\"http://www.google.com\",\"id\":\"id\",\"datacontenttype\":\"application/json\"}"
    );
}

#[test]
fn encoding_appends_string_data() {
    let event = CloudEventBuilder::v1_0()
        .event_type("test type")
        .source("http://www.google.com")
        .event_id("id")
        .datacontenttype("application/json")
        .data(Data::from_string("\"test\""))
        .build()
        .unwrap();
    assert_eq!(
        event.to_json_string(),
        "{\"type\":\"test type\",\"specversion\":\"1.0\",\"source\":\"http://www.google.com\",\"id\":\"id\",\"datacontenttype\":\"application/json\",\"data\":\"\\\"test\\\"\"}"
    );
}

#[test]
fn decode_inverts_encode_v1_0() {
    let mut exts = Extensions::new();
    exts.set("comexampleextension1", ExtensionValue::from_string("value"));
    exts.set(
        "comexampleothervalue",
        ExtensionValue::from_serializable(JsonValue::Number("5".to_owned())).unwrap(),
    );
    let event = CloudEventBuilder::v1_0()
        .event_type("com.example.someevent")
        .source("/mycontext")
        .event_id("A234-1234-1234")
        .time("2018-04-05T17:31:00Z")
        .subject("larger-context")
        .dataschema("http://example.com/schema.json")
        .datacontenttype("application/json")
        .data(Data::from_serializable(JsonValue::Object(vec![(
            "appinfoA".to_owned(),
            JsonValue::Text("abc".to_owned()),
        )]))
        .unwrap())
        .extensions(exts)
        .build()
        .unwrap();
    let text = event.to_json_string();
    let decoded = CloudEvent::decode(&text).unwrap();
    assert_eq!(decoded, CloudEvent::V1_0(event));
}

#[test]
fn decode_inverts_encode_v0_2() {
    let event = CloudEventBuilder::v0_2()
        .event_type("com.example.someevent")
        .source("/mycontext")
        .event_id("A234-1234-1234")
        .time("2018-04-05T17:31:00+02:00")
        .schemaurl("http://example.com/schema.json")
        .contenttype("text/xml")
        .data(Data::from_string("<much wow=\"xml\"/>"))
        .build()
        .unwrap();
    let text = event.to_json_string();
    let decoded = CloudEvent::decode(&text).unwrap();
    assert_eq!(decoded, CloudEvent::V0_2(event));
}

#[test]
fn decode_picks_version_by_specversion() {
    let text_v1 = "{\"type\":\"t\",\"specversion\":\"1.0\",\"source\":\"/s\",\"id\":\"1\"}";
    match CloudEvent::decode(text_v1).unwrap() {
        CloudEvent::V1_0(e) => assert_eq!(e.specversion(), "1.0"),
        CloudEvent::V0_2(_) => panic!("decoded the 1.0 text as 0.2"),
    }
    let text_v02 = "{\"type\":\"t\",\"specversion\":\"0.2\",\"source\":\"/s\",\"id\":\"1\"}";
    match CloudEvent::decode(text_v02).unwrap() {
        CloudEvent::V0_2(e) => assert_eq!(e.specversion(), "0.2"),
        CloudEvent::V1_0(_) => panic!("decoded the 0.2 text as 1.0"),
    }
}

#[test]
fn decode_accepts_whitespace_and_any_member_order() {
    let text = " { \"id\" : \"1\", \"specversion\": \"1.0\", \"type\": \"t\", \"source\": \"/s\" } ";
    let decoded = CloudEvent::decode(text).unwrap();
    assert_eq!(decoded.event_id(), "1");
    assert_eq!(decoded.event_type(), "t");
    assert_eq!(decoded.source(), "/s");
}

#[test]
fn decode_rejects_text_that_is_not_json() {
    assert_eq!(
        CloudEvent::decode("not json"),
        Err(cloudevents::Error::SerializationError)
    );
}

#[test]
fn decode_rejects_an_object_without_required_members() {
    assert_eq!(
        CloudEvent::decode("{\"specversion\":\"1.0\",\"type\":\"t\"}"),
        Err(cloudevents::Error::SerializationError)
    );
}

#[test]
fn decode_keeps_the_time_text_verbatim() {
    let text = "{\"type\":\"t\",\"specversion\":\"1.0\",\"source\":\"/s\",\"id\":\"1\",\"time\":\"2018-04-05T17:31:00+02:00\"}";
    let decoded = CloudEvent::decode(text).unwrap();
    let time = decoded.event_time().unwrap();
    assert_eq!(time.as_rfc3339(), "2018-04-05T17:31:00+02:00");
    assert_eq!(decoded.encode(), text);
}

#[test]
fn decode_rejects_an_invalid_time() {
    let text = "{\"type\":\"t\",\"specversion\":\"1.0\",\"source\":\"/s\",\"id\":\"1\",\"time\":\"yesterday\"}";
    assert_eq!(
        CloudEvent::decode(text),
        Err(cloudevents::Error::SerializationError)
    );
}

#[test]
fn wrapped_accessors_dispatch_to_both_versions() {
    let v1 = CloudEventV1_0Builder::default()
        .event_type("test type")
        .source("http://www.google.com")
        .event_id("id")
        .datacontenttype("application/json")
        .data(Data::from_string("\"test\""))
        .build()
        .unwrap();
    let wrapped = CloudEvent::V1_0(v1);
    assert_eq!(wrapped.event_id(), "id");
    assert_eq!(wrapped.event_type(), "test type");
    assert_eq!(wrapped.source(), "http://www.google.com");
    assert_eq!(wrapped.specversion(), "1.0");
    assert_eq!(
        wrapped.data(),
        Some(&Data::StringOrBinary("\"test\"".to_owned()))
    );

    let v02 = CloudEventBuilder::v0_2()
        .event_type("t2")
        .source("/s")
        .event_id("id2")
        .build()
        .unwrap();
    let wrapped = CloudEvent::V0_2(v02);
    assert_eq!(wrapped.event_id(), "id2");
    assert_eq!(wrapped.specversion(), "0.2");
    assert_eq!(wrapped.extensions(), None);
}

#[test]
fn new_assembles_the_same_envelope_as_the_builder() {
    let built = CloudEventV1_0Builder::default()
        .event_type("t")
        .source("/s")
        .event_id("1")
        .build()
        .unwrap();
    let assembled = CloudEventV1_0::new(
        "t".to_owned(),
        "/s".to_owned(),
        "1".to_owned(),
        None,
        None,
        None,
        None,
        None,
        None,
    );
    assert_eq!(built, assembled);

    let built = CloudEventBuilder::v0_2()
        .event_type("t")
        .source("/s")
        .event_id("1")
        .build()
        .unwrap();
    let assembled = CloudEventV0_2::new(
        "t".to_owned(),
        "/s".to_owned(),
        "1".to_owned(),
        None,
        None,
        None,
        None,
        None,
    );
    assert_eq!(built, assembled);
}

#[test]
fn extensions_encode_under_one_member_and_round_trip() {
    let mut exts = Extensions::new();
    exts.set("a", ExtensionValue::from_string("x"));
    exts.set("b", ExtensionValue::from_serializable(JsonValue::Bool(true)).unwrap());
    let event = CloudEventBuilder::v1_0()
        .event_type("t")
        .source("/s")
        .event_id("1")
        .extensions(exts)
        .build()
        .unwrap();
    let text = event.to_json_string();
    assert_eq!(
        text,
        "{\"type\":\"t\",\"specversion\":\"1.0\",\"source\":\"/s\",\"id\":\"1\",\"extensions\":{\"a\":\"x\",\"b\":true}}"
    );
    let decoded = CloudEvent::decode(&text).unwrap();
    assert_eq!(decoded, CloudEvent::V1_0(event));
}
