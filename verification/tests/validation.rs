use cloudevents::v1_0::CloudEventV1_0Builder;
use cloudevents::{CloudEventBuilder, Data, Error};

#[test]
fn build_succeeds_with_all_required_fields_and_keeps_values() {
    let event = CloudEventV1_0Builder::default()
        .event_type("t")
        .source("urn:x:y")
        .event_id("42")
        .subject("s")
        .build()
        .unwrap();
    assert_eq!(event.event_type(), "t");
    assert_eq!(event.source(), "urn:x:y");
    assert_eq!(event.event_id(), "42");
    assert_eq!(event.subject(), Some("s"));
    assert_eq!(event.specversion(), "1.0");
}

#[test]
fn missing_event_type_is_reported_first() {
    let r = CloudEventV1_0Builder::default().build();
    assert_eq!(r.unwrap_err(), Error::MissingField("event type".to_owned()));

    let r = CloudEventV1_0Builder::default()
        .source("/s")
        .event_id("1")
        .build();
    assert_eq!(r.unwrap_err(), Error::MissingField("event type".to_owned()));
}

#[test]
fn missing_source_is_reported_second() {
    let r = CloudEventV1_0Builder::default().event_type("t").build();
    assert_eq!(r.unwrap_err(), Error::MissingField("source".to_owned()));
}

#[test]
fn missing_id_is_reported_third() {
    let r = CloudEventV1_0Builder::default()
        .event_type("t")
        .source("/s")
        .build();
    assert_eq!(r.unwrap_err(), Error::MissingField("id".to_owned()));
}

#[test]
fn v0_2_reports_missing_fields_in_the_same_order() {
    let r = CloudEventBuilder::v0_2().build();
    assert_eq!(r.unwrap_err(), Error::MissingField("event type".to_owned()));
    let r = CloudEventBuilder::v0_2().event_type("t").build();
    assert_eq!(r.unwrap_err(), Error::MissingField("source".to_owned()));
    let r = CloudEventBuilder::v0_2().event_type("t").source("/s").build();
    assert_eq!(r.unwrap_err(), Error::MissingField("id".to_owned()));
}

#[test]
fn malformed_source_is_rejected() {
    let r = CloudEventV1_0Builder::default()
        .event_type("t")
        .source("http://")
        .event_id("1")
        .build();
    match r.unwrap_err() {
        Error::InvalidField(f, _) => assert_eq!(f, "source"),
        other => panic!("expected InvalidField(source), got {:?}", other),
    }
}

#[test]
fn source_failure_outranks_missing_id() {
    let r = CloudEventV1_0Builder::default()
        .event_type("t")
        .source("http://")
        .build();
    match r.unwrap_err() {
        Error::InvalidField(f, _) => assert_eq!(f, "source"),
        other => panic!("expected InvalidField(source), got {:?}", other),
    }
}

#[test]
fn invalid_time_is_rejected() {
    let r = CloudEventV1_0Builder::default()
        .event_type("t")
        .source("/s")
        .event_id("1")
        .time("not-a-date")
        .build();
    match r.unwrap_err() {
        Error::InvalidField(f, _) => assert_eq!(f, "time"),
        other => panic!("expected InvalidField(time), got {:?}", other),
    }
}

#[test]
fn invalid_time_is_rejected_on_v0_2_too() {
    let r = CloudEventBuilder::v0_2()
        .event_type("t")
        .source("/s")
        .event_id("1")
        .time("now")
        .build();
    match r.unwrap_err() {
        Error::InvalidField(f, _) => assert_eq!(f, "time"),
        other => panic!("expected InvalidField(time), got {:?}", other),
    }
}

#[test]
fn time_now_resolves_to_the_current_time() {
    let event = CloudEventV1_0Builder::default()
        .event_type("t")
        .source("/s")
        .event_id("1")
        .time("now")
        .build()
        .unwrap();
    let stamp = event.event_time().unwrap().as_rfc3339().to_owned();
    let parsed = chrono::DateTime::parse_from_rfc3339(&stamp).unwrap();
    let now = chrono::DateTime::<chrono::FixedOffset>::from(chrono::Local::now());
    let delta = (now - parsed).num_seconds().abs();
    assert!(delta < 300, "timestamp {} is {}s from now", stamp, delta);
}

#[test]
fn valid_time_is_kept_verbatim() {
    let event = CloudEventV1_0Builder::default()
        .event_type("t")
        .source("/s")
        .event_id("1")
        .time("2019-12-04T18:33:09+00:00")
        .build()
        .unwrap();
    assert_eq!(
        event.event_time().unwrap().as_rfc3339(),
        "2019-12-04T18:33:09+00:00"
    );
}

#[test]
fn invalid_dataschema_is_rejected_as_schema() {
    let r = CloudEventV1_0Builder::default()
        .event_type("t")
        .source("/s")
        .event_id("1")
        .dataschema("http://")
        .build();
    match r.unwrap_err() {
        Error::InvalidField(f, _) => assert_eq!(f, "schema"),
        other => panic!("expected InvalidField(schema), got {:?}", other),
    }
}

#[test]
fn invalid_schemaurl_is_rejected_as_schema() {
    let r = CloudEventBuilder::v0_2()
        .event_type("t")
        .source("/s")
        .event_id("1")
        .schemaurl("http://")
        .build();
    match r.unwrap_err() {
        Error::InvalidField(f, _) => assert_eq!(f, "schema"),
        other => panic!("expected InvalidField(schema), got {:?}", other),
    }
}

#[test]
fn from_binary_round_trips_through_base64_decode() {
    let cases: Vec<Vec<u8>> = vec![
        b"".to_vec(),
        b"a".to_vec(),
        b"ab".to_vec(),
        b"abc".to_vec(),
        b"this is binary".to_vec(),
        vec![0u8, 255, 13, 10, 1, 2, 3],
    ];
    for bytes in cases {
        let data = Data::from_binary(&bytes);
        match data {
            Data::StringOrBinary(text) => {
                assert_eq!(base64::decode(&text).unwrap(), bytes);
            }
            other => panic!("expected StringOrBinary, got {:?}", other),
        }
    }
}

#[test]
fn error_message_names_the_field() {
    let e = Error::MissingField("source".to_owned());
    assert_eq!(e.message(), "source is required");
}
