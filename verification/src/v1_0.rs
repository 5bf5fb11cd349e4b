//! The event envelope and its builder for spec version 1.0.

use vstd::prelude::*;
use vstd::string::StringExecFns;
use crate::error::{Error, ErrorView};
use crate::json::{
    clone_json, e_obj_get, json_to_string, json_wf, lemma_json_rt, lemma_obj_wf_from_all,
    member_views, obj_get, obj_index_from, parse_json, sp_json, spec_write, JsonValue, JsonView,
};
use crate::time::Timestamp;
use crate::trusted::{check_uri_reference, rfc3339_accepted, uri_reference_accepted};
use crate::value::{
    data_decodable, data_json, ext_entries_json, ext_from_json, ext_keys_unique, ext_set,
    ext_to_json, ext_val_decodable, ext_val_from_json, ext_val_json, lemma_ext_round_from, Data,
    DataView, ExtensionValue, ExtensionValueView, Extensions,
};

verus! {

/// The mathematical shape of a version 1.0 envelope.
#[verifier::ext_equal]
pub struct EventV1View {
    pub event_type: Seq<char>,
    pub specversion: Seq<char>,
    pub source: Seq<char>,
    pub id: Seq<char>,
    pub time: Option<Seq<char>>,
    pub subject: Option<Seq<char>>,
    pub dataschema: Option<Seq<char>>,
    pub datacontenttype: Option<Seq<char>>,
    pub data: Option<DataView>,
    pub extensions: Option<Seq<(Seq<char>, ExtensionValueView)>>,
}

/// An event envelope according to spec version 1.0: immutable once
/// built, with the validation of [`CloudEventV1_0Builder::build`]
/// behind it.
#[derive(Debug, PartialEq)]
pub struct CloudEventV1_0 {
    event_type: String,
    specversion: String,
    source: String,
    id: String,
    time: Option<Timestamp>,
    subject: Option<String>,
    dataschema: Option<String>,
    datacontenttype: Option<String>,
    data: Option<Data>,
    extensions: Option<Extensions>,
}

impl View for CloudEventV1_0 {
    type V = EventV1View;

    closed spec fn view(&self) -> EventV1View {
        EventV1View {
            event_type: self.event_type@,
            specversion: self.specversion@,
            source: self.source@,
            id: self.id@,
            time: match self.time {
                Some(t) => Some(t@),
                None => None,
            },
            subject: match self.subject {
                Some(s) => Some(s@),
                None => None,
            },
            dataschema: match self.dataschema {
                Some(s) => Some(s@),
                None => None,
            },
            datacontenttype: match self.datacontenttype {
                Some(s) => Some(s@),
                None => None,
            },
            data: match self.data {
                Some(d) => Some(d@),
                None => None,
            },
            extensions: match self.extensions {
                Some(m) => Some(m@),
                None => None,
            },
        }
    }
}

/// What a successful build guarantees of the envelope: the version
/// tag, and validity of the checked attributes.
pub open spec fn wf_v1(ev: EventV1View) -> bool {
    &&& ev.specversion == "1.0"@
    &&& uri_reference_accepted(ev.source)
    &&& (ev.time matches Some(t) ==> rfc3339_accepted(t))
    &&& (ev.dataschema matches Some(d) ==> uri_reference_accepted(d))
}

impl CloudEventV1_0 {
    /// Assembles an envelope from already validated parts; the spec
    /// version is pinned to "1.0".  The builder is the validated way
    /// to one of these.
    pub fn new(
        event_type: String,
        source: String,
        id: String,
        time: Option<Timestamp>,
        subject: Option<String>,
        dataschema: Option<String>,
        datacontenttype: Option<String>,
        data: Option<Data>,
        extensions: Option<Extensions>,
    ) -> (r: CloudEventV1_0)
        ensures
            r@ == (EventV1View {
                event_type: event_type@,
                specversion: "1.0"@,
                source: source@,
                id: id@,
                time: match time {
                    Some(t) => Some(t@),
                    None => None,
                },
                subject: match subject {
                    Some(s) => Some(s@),
                    None => None,
                },
                dataschema: match dataschema {
                    Some(s) => Some(s@),
                    None => None,
                },
                datacontenttype: match datacontenttype {
                    Some(s) => Some(s@),
                    None => None,
                },
                data: match data {
                    Some(d) => Some(d@),
                    None => None,
                },
                extensions: match extensions {
                    Some(m) => Some(m@),
                    None => None,
                },
            }),
    {
        CloudEventV1_0 {
            event_type,
            specversion: String::from_str("1.0"),
            source,
            id,
            time,
            subject,
            dataschema,
            datacontenttype,
            data,
            extensions,
        }
    }

    /// The event type.
    pub fn event_type(&self) -> (r: &str)
        ensures
            r@ == self@.event_type,
    {
        self.event_type.as_str()
    }

    /// The spec version, always "1.0".
    pub fn specversion(&self) -> (r: &str)
        ensures
            r@ == self@.specversion,
    {
        self.specversion.as_str()
    }

    /// The source.
    pub fn source(&self) -> (r: &str)
        ensures
            r@ == self@.source,
    {
        self.source.as_str()
    }

    /// The event id.
    pub fn event_id(&self) -> (r: &str)
        ensures
            r@ == self@.id,
    {
        self.id.as_str()
    }

    /// The event time.
    pub fn event_time(&self) -> (r: Option<&Timestamp>)
        ensures
            match r {
                Some(t) => self@.time == Some(t@),
                None => self@.time is None,
            },
    {
        self.time.as_ref()
    }

    /// The subject.
    pub fn subject(&self) -> (r: Option<&str>)
        ensures
            match r {
                Some(s) => self@.subject == Some(s@),
                None => self@.subject is None,
            },
    {
        match &self.subject {
            Some(s) => Some(s.as_str()),
            None => None,
        }
    }

    /// The dataschema.
    pub fn dataschema(&self) -> (r: Option<&str>)
        ensures
            match r {
                Some(s) => self@.dataschema == Some(s@),
                None => self@.dataschema is None,
            },
    {
        match &self.dataschema {
            Some(s) => Some(s.as_str()),
            None => None,
        }
    }

    /// The datacontenttype.
    pub fn datacontenttype(&self) -> (r: Option<&str>)
        ensures
            match r {
                Some(s) => self@.datacontenttype == Some(s@),
                None => self@.datacontenttype is None,
            },
    {
        match &self.datacontenttype {
            Some(s) => Some(s.as_str()),
            None => None,
        }
    }

    /// The data payload.
    pub fn data(&self) -> (r: Option<&Data>)
        ensures
            match r {
                Some(d) => self@.data == Some(d@),
                None => self@.data is None,
            },
    {
        self.data.as_ref()
    }

    /// The extension attributes.
    pub fn extensions(&self) -> (r: Option<&Extensions>)
        ensures
            match r {
                Some(m) => self@.extensions == Some(m@),
                None => self@.extensions is None,
            },
    {
        self.extensions.as_ref()
    }
}

/// The mathematical shape of a version 1.0 builder: the raw,
/// unvalidated field assignments.
#[verifier::ext_equal]
pub struct BuilderV1View {
    pub event_type: Option<Seq<char>>,
    pub source: Option<Seq<char>>,
    pub id: Option<Seq<char>>,
    pub time: Option<Seq<char>>,
    pub subject: Option<Seq<char>>,
    pub dataschema: Option<Seq<char>>,
    pub datacontenttype: Option<Seq<char>>,
    pub data: Option<DataView>,
    pub extensions: Option<Seq<(Seq<char>, ExtensionValueView)>>,
}

/// Accumulates field assignments for a version 1.0 envelope and
/// validates them all at [`CloudEventV1_0Builder::build`] time, in a
/// fixed documented order.
#[derive(Debug)]
pub struct CloudEventV1_0Builder {
    event_type: Option<String>,
    source: Option<String>,
    id: Option<String>,
    time: Option<String>,
    subject: Option<String>,
    dataschema: Option<String>,
    datacontenttype: Option<String>,
    data: Option<Data>,
    extensions: Option<Extensions>,
}

impl View for CloudEventV1_0Builder {
    type V = BuilderV1View;

    closed spec fn view(&self) -> BuilderV1View {
        BuilderV1View {
            event_type: match self.event_type {
                Some(s) => Some(s@),
                None => None,
            },
            source: match self.source {
                Some(s) => Some(s@),
                None => None,
            },
            id: match self.id {
                Some(s) => Some(s@),
                None => None,
            },
            time: match self.time {
                Some(s) => Some(s@),
                None => None,
            },
            subject: match self.subject {
                Some(s) => Some(s@),
                None => None,
            },
            dataschema: match self.dataschema {
                Some(s) => Some(s@),
                None => None,
            },
            datacontenttype: match self.datacontenttype {
                Some(s) => Some(s@),
                None => None,
            },
            data: match self.data {
                Some(d) => Some(d@),
                None => None,
            },
            extensions: match self.extensions {
                Some(m) => Some(m@),
                None => None,
            },
        }
    }
}

/// The source assignment parses as an absolute URI or passes as a
/// relative reference.
pub open spec fn source_ok_v1(b: BuilderV1View) -> bool {
    b.source matches Some(s) && uri_reference_accepted(s)
}

/// The time assignment, if any, is the literal "now" or parses as
/// RFC 3339.
pub open spec fn time_ok_v1(b: BuilderV1View) -> bool {
    match b.time {
        None => true,
        Some(t) => t == "now"@ || rfc3339_accepted(t),
    }
}

/// The dataschema assignment, if any, passes the same check as the
/// source.
pub open spec fn schema_ok_v1(b: BuilderV1View) -> bool {
    match b.dataschema {
        None => true,
        Some(d) => uri_reference_accepted(d),
    }
}

/// Every check of the build passes.
pub open spec fn build_ok_v1(b: BuilderV1View) -> bool {
    &&& b.event_type is Some
    &&& source_ok_v1(b)
    &&& b.id is Some
    &&& time_ok_v1(b)
    &&& schema_ok_v1(b)
}

/// The envelope a successful build yields, except that a "now" time
/// is resolved at build time and is not pinned here.
pub open spec fn built_view_v1(b: BuilderV1View) -> EventV1View {
    EventV1View {
        event_type: b.event_type->Some_0,
        specversion: "1.0"@,
        source: b.source->Some_0,
        id: b.id->Some_0,
        time: b.time,
        subject: b.subject,
        dataschema: b.dataschema,
        datacontenttype: b.datacontenttype,
        data: b.data,
        extensions: b.extensions,
    }
}

impl Default for CloudEventV1_0Builder {
    /// An empty builder: no field assigned.
    fn default() -> (r: Self)
        ensures
            r@ == (BuilderV1View {
                event_type: None,
                source: None,
                id: None,
                time: None,
                subject: None,
                dataschema: None,
                datacontenttype: None,
                data: None,
                extensions: None,
            }),
    {
        CloudEventV1_0Builder {
            event_type: None,
            source: None,
            id: None,
            time: None,
            subject: None,
            dataschema: None,
            datacontenttype: None,
            data: None,
            extensions: None,
        }
    }
}

impl CloudEventV1_0Builder {
    /// Set the event type.
    pub fn event_type(self, s: &str) -> (r: Self)
        ensures
            r@ == (BuilderV1View { event_type: Some(s@), ..self@ }),
    {
        CloudEventV1_0Builder { event_type: Some(s.to_owned()), ..self }
    }

    /// Set the source.
    pub fn source(self, s: &str) -> (r: Self)
        ensures
            r@ == (BuilderV1View { source: Some(s@), ..self@ }),
    {
        CloudEventV1_0Builder { source: Some(s.to_owned()), ..self }
    }

    /// Set the event id.
    pub fn event_id(self, s: &str) -> (r: Self)
        ensures
            r@ == (BuilderV1View { id: Some(s@), ..self@ }),
    {
        CloudEventV1_0Builder { id: Some(s.to_owned()), ..self }
    }

    /// Set the time.
    pub fn time(self, s: &str) -> (r: Self)
        ensures
            r@ == (BuilderV1View { time: Some(s@), ..self@ }),
    {
        CloudEventV1_0Builder { time: Some(s.to_owned()), ..self }
    }

    /// Set the subject.
    pub fn subject(self, s: &str) -> (r: Self)
        ensures
            r@ == (BuilderV1View { subject: Some(s@), ..self@ }),
    {
        CloudEventV1_0Builder { subject: Some(s.to_owned()), ..self }
    }

    /// Set the dataschema.
    pub fn dataschema(self, s: &str) -> (r: Self)
        ensures
            r@ == (BuilderV1View { dataschema: Some(s@), ..self@ }),
    {
        CloudEventV1_0Builder { dataschema: Some(s.to_owned()), ..self }
    }

    /// Set the datacontenttype.
    pub fn datacontenttype(self, s: &str) -> (r: Self)
        ensures
            r@ == (BuilderV1View { datacontenttype: Some(s@), ..self@ }),
    {
        CloudEventV1_0Builder { datacontenttype: Some(s.to_owned()), ..self }
    }

    /// Set the data.
    pub fn data(self, d: Data) -> (r: Self)
        ensures
            r@ == (BuilderV1View { data: Some(d@), ..self@ }),
    {
        CloudEventV1_0Builder { data: Some(d), ..self }
    }

    /// Set the extensions.
    pub fn extensions(self, e: Extensions) -> (r: Self)
        ensures
            r@ == (BuilderV1View { extensions: Some(e@), ..self@ }),
    {
        CloudEventV1_0Builder { extensions: Some(e), ..self }
    }

    /// Validates the assignments, in this order — event type present;
    /// source present and a URI reference; id present; time "now" or
    /// RFC 3339; dataschema a URI reference — and yields the envelope,
    /// or the first failure.
    pub fn build(self) -> (r: Result<CloudEventV1_0, Error>)
        ensures
            r is Ok <==> build_ok_v1(self@),
            self@.event_type is None ==> (r matches Err(e) && e@ == ErrorView::MissingField(
                "event type"@,
            )),
            self@.event_type is Some && self@.source is None ==> (r matches Err(e) && e@
                == ErrorView::MissingField("source"@)),
            self@.event_type is Some && (self@.source matches Some(s) && !uri_reference_accepted(
                s,
            )) ==> (r matches Err(e) && e@ matches ErrorView::InvalidField(f, _) && f
                == "source"@),
            self@.event_type is Some && source_ok_v1(self@) && self@.id is None ==> (r matches Err(
                e,
            ) && e@ == ErrorView::MissingField("id"@)),
            self@.event_type is Some && source_ok_v1(self@) && self@.id is Some && !time_ok_v1(
                self@,
            ) ==> (r matches Err(e) && e@ matches ErrorView::InvalidField(f, _) && f == "time"@),
            self@.event_type is Some && source_ok_v1(self@) && self@.id is Some && time_ok_v1(self@)
                && !schema_ok_v1(self@) ==> (r matches Err(e) && e@ matches ErrorView::InvalidField(
                f,
                _,
            ) && f == "schema"@),
            build_ok_v1(self@) && self@.time != Some("now"@) ==> (r matches Ok(ev) && ev@
                == built_view_v1(self@)),
            build_ok_v1(self@) && self@.time == Some("now"@) ==> (r matches Ok(ev) && ev@
                == (EventV1View { time: ev@.time, ..built_view_v1(self@) }) && (
            ev@.time matches Some(t) && rfc3339_accepted(t))),
            r matches Ok(ev) ==> wf_v1(ev@),
    {
        let event_type = match self.event_type {
            Some(x) => x,
            None => {
                return Err(Error::MissingField(String::from_str("event type")));
            },
        };
        let source = match self.source {
            Some(x) => {
                match check_uri_reference(x.as_str()) {
                    Ok(u) => x,
                    Err(d) => {
                        return Err(Error::InvalidField(String::from_str("source"), d));
                    },
                }
            },
            None => {
                return Err(Error::MissingField(String::from_str("source")));
            },
        };
        let id = match self.id {
            Some(x) => x,
            None => {
                return Err(Error::MissingField(String::from_str("id")));
            },
        };
        let now_token = String::from_str("now");
        let time: Option<Timestamp> = match self.time {
            Some(t) => {
                if t == now_token {
                    Some(Timestamp::now())
                } else {
                    match Timestamp::parse(t.as_str()) {
                        Ok(ts) => Some(ts),
                        Err(d) => {
                            return Err(Error::InvalidField(String::from_str("time"), d));
                        },
                    }
                }
            },
            None => None,
        };
        let dataschema: Option<String> = match self.dataschema {
            Some(x) => {
                match check_uri_reference(x.as_str()) {
                    Ok(u) => Some(x),
                    Err(d) => {
                        return Err(Error::InvalidField(String::from_str("schema"), d));
                    },
                }
            },
            None => None,
        };
        Ok(
            CloudEventV1_0::new(
                event_type,
                source,
                id,
                time,
                self.subject,
                dataschema,
                self.datacontenttype,
                self.data,
                self.extensions,
            ),
        )
    }
}

/// The wire object of a version 1.0 envelope: the fixed attributes in
/// a fixed order, each optional attribute omitted when absent, the
/// extension entries grouped under an "extensions" member.
pub open spec fn spec_members_v1(ev: EventV1View) -> Seq<(Seq<char>, JsonView)> {
    seq![
        ("type"@, JsonView::Text(ev.event_type)),
        ("specversion"@, JsonView::Text(ev.specversion)),
        ("source"@, JsonView::Text(ev.source)),
        ("id"@, JsonView::Text(ev.id)),
    ] + (match ev.time {
        Some(t) => seq![("time"@, JsonView::Text(t))],
        None => Seq::empty(),
    }) + (match ev.subject {
        Some(x) => seq![("subject"@, JsonView::Text(x))],
        None => Seq::empty(),
    }) + (match ev.dataschema {
        Some(x) => seq![("dataschema"@, JsonView::Text(x))],
        None => Seq::empty(),
    }) + (match ev.datacontenttype {
        Some(x) => seq![("datacontenttype"@, JsonView::Text(x))],
        None => Seq::empty(),
    }) + (match ev.data {
        Some(d) => seq![("data"@, data_json(d))],
        None => Seq::empty(),
    }) + (match ev.extensions {
        Some(m) => seq![("extensions"@, JsonView::Object(ext_entries_json(m)))],
        None => Seq::empty(),
    })
}

/// The wire document of a version 1.0 envelope.
pub open spec fn spec_to_json_v1(ev: EventV1View) -> JsonView {
    JsonView::Object(spec_members_v1(ev))
}

/// The wire text of a version 1.0 envelope.
pub open spec fn spec_encode_v1(ev: EventV1View) -> Seq<char> {
    spec_write(spec_to_json_v1(ev))
}

impl CloudEventV1_0 {
    /// The envelope's wire object.
    pub fn to_json(&self) -> (r: JsonValue)
        ensures
            r@ == spec_to_json_v1(self@),
    {
        let mut ps: Vec<(String, JsonValue)> = Vec::new();
        ps.push((String::from_str("type"), JsonValue::Text(self.event_type.clone())));
        ps.push((String::from_str("specversion"), JsonValue::Text(self.specversion.clone())));
        ps.push((String::from_str("source"), JsonValue::Text(self.source.clone())));
        ps.push((String::from_str("id"), JsonValue::Text(self.id.clone())));
        let ghost g0 = seq![
            ("type"@, JsonView::Text(self@.event_type)),
            ("specversion"@, JsonView::Text(self@.specversion)),
            ("source"@, JsonView::Text(self@.source)),
            ("id"@, JsonView::Text(self@.id)),
        ];
        proof {
            assert(member_views(ps@) =~= g0);
        }
        match &self.time {
            Some(t) => {
                ps.push((String::from_str("time"), JsonValue::Text(t.as_rfc3339().to_owned())));
            },
            None => {},
        }
        let ghost g1 = g0 + (match self@.time {
            Some(t) => seq![("time"@, JsonView::Text(t))],
            None => Seq::empty(),
        });
        proof {
            assert(member_views(ps@) =~= g1);
        }
        match &self.subject {
            Some(x) => {
                ps.push((String::from_str("subject"), JsonValue::Text(x.clone())));
            },
            None => {},
        }
        let ghost g2 = g1 + (match self@.subject {
            Some(x) => seq![("subject"@, JsonView::Text(x))],
            None => Seq::empty(),
        });
        proof {
            assert(member_views(ps@) =~= g2);
        }
        match &self.dataschema {
            Some(x) => {
                ps.push((String::from_str("dataschema"), JsonValue::Text(x.clone())));
            },
            None => {},
        }
        let ghost g3 = g2 + (match self@.dataschema {
            Some(x) => seq![("dataschema"@, JsonView::Text(x))],
            None => Seq::empty(),
        });
        proof {
            assert(member_views(ps@) =~= g3);
        }
        match &self.datacontenttype {
            Some(x) => {
                ps.push((String::from_str("datacontenttype"), JsonValue::Text(x.clone())));
            },
            None => {},
        }
        let ghost g4 = g3 + (match self@.datacontenttype {
            Some(x) => seq![("datacontenttype"@, JsonView::Text(x))],
            None => Seq::empty(),
        });
        proof {
            assert(member_views(ps@) =~= g4);
        }
        match &self.data {
            Some(Data::StringOrBinary(s)) => {
                ps.push((String::from_str("data"), JsonValue::Text(s.clone())));
            },
            Some(Data::Object(j)) => {
                ps.push((String::from_str("data"), clone_json(j)));
            },
            None => {},
        }
        let ghost g5 = g4 + (match self@.data {
            Some(d) => seq![("data"@, data_json(d))],
            None => Seq::empty(),
        });
        proof {
            assert(member_views(ps@) =~= g5);
        }
        match &self.extensions {
            Some(m) => {
                ps.push((String::from_str("extensions"), crate::value::ext_to_json(m)));
            },
            None => {},
        }
        let ghost g6 = g5 + (match self@.extensions {
            Some(m) => seq![("extensions"@, JsonView::Object(ext_entries_json(m)))],
            None => Seq::empty(),
        });
        proof {
            assert(member_views(ps@) =~= g6);
            assert(g6 =~= spec_members_v1(self@));
        }
        JsonValue::Object(ps)
    }

    /// The envelope's wire text.
    pub fn to_json_string(&self) -> (r: String)
        ensures
            r@ == spec_encode_v1(self@),
    {
        let j = self.to_json();
        json_to_string(&j)
    }
}

/// What reading a wire document back as a version 1.0 envelope
/// yields: `None` when the document is not an object, the
/// "specversion" member is not exactly the string "1.0", a required
/// member is missing or not a string, a "time" member is not a valid
/// RFC 3339 string, another optional string member is not a string,
/// or an "extensions" member is not an object.  Unknown members are
/// ignored; of a repeated member the first wins.
pub open spec fn spec_from_json_v1(j: JsonView) -> Option<EventV1View> {
    match j {
        JsonView::Object(ps) => {
            if obj_get(ps, "specversion"@) != Some(JsonView::Text("1.0"@)) {
                None
            } else {
                match (obj_get(ps, "type"@), obj_get(ps, "source"@), obj_get(ps, "id"@)) {
                    (
                        Some(JsonView::Text(et)),
                        Some(JsonView::Text(src)),
                        Some(JsonView::Text(id)),
                    ) => {
                        let time_r = match obj_get(ps, "time"@) {
                            None => Some(None),
                            Some(JsonView::Text(t)) => if rfc3339_accepted(t) {
                                Some(Some(t))
                            } else {
                                None
                            },
                            Some(_) => None,
                        };
                        let subj_r = match obj_get(ps, "subject"@) {
                            None => Some(None),
                            Some(JsonView::Text(x)) => Some(Some(x)),
                            Some(_) => None,
                        };
                        let ds_r = match obj_get(ps, "dataschema"@) {
                            None => Some(None),
                            Some(JsonView::Text(x)) => Some(Some(x)),
                            Some(_) => None,
                        };
                        let dct_r = match obj_get(ps, "datacontenttype"@) {
                            None => Some(None),
                            Some(JsonView::Text(x)) => Some(Some(x)),
                            Some(_) => None,
                        };
                        let data_v = match obj_get(ps, "data"@) {
                            None => None,
                            Some(JsonView::Text(s)) => Some(DataView::StringOrBinary(s)),
                            Some(o) => Some(DataView::Object(o)),
                        };
                        let ext_r = match obj_get(ps, "extensions"@) {
                            None => Some(None),
                            Some(JsonView::Object(eps)) => Some(
                                Some(ext_from_json(eps, 0, Seq::empty())),
                            ),
                            Some(_) => None,
                        };
                        match (time_r, subj_r, ds_r, dct_r, ext_r) {
                            (
                                Some(time),
                                Some(subject),
                                Some(dataschema),
                                Some(datacontenttype),
                                Some(extensions),
                            ) => Some(
                                EventV1View {
                                    event_type: et,
                                    specversion: "1.0"@,
                                    source: src,
                                    id: id,
                                    time: time,
                                    subject: subject,
                                    dataschema: dataschema,
                                    datacontenttype: datacontenttype,
                                    data: data_v,
                                    extensions: extensions,
                                },
                            ),
                            _ => None,
                        }
                    },
                    _ => None,
                }
            }
        },
        _ => None,
    }
}

/// Reads a wire object back as an extension map.
fn ext_map_from_json(eps: &Vec<(String, JsonValue)>) -> (r: Extensions)
    ensures
        r@ == ext_from_json(member_views(eps@), 0, Seq::empty()),
        r.wf(),
{
    let ghost epsv = member_views(eps@);
    let mut m = Extensions::new();
    let n = eps.len();
    let mut i: usize = 0;
    while i < n
        invariant
            n == eps@.len(),
            epsv == member_views(eps@),
            i <= n,
            m.wf(),
            ext_from_json(epsv, i as int, m@) == ext_from_json(epsv, 0, Seq::empty()),
        decreases n - i,
    {
        let val = match &eps[i].1 {
            JsonValue::Text(s) => ExtensionValue::String(s.clone()),
            other => ExtensionValue::Object(clone_json(other)),
        };
        proof {
            assert(val@ == ext_val_from_json(epsv[i as int].1));
        }
        m.set(eps[i].0.as_str(), val);
        i = i + 1;
    }
    m
}

impl CloudEventV1_0 {
    /// Reads a wire object back as a version 1.0 envelope; see
    /// [`spec_from_json_v1`] for exactly when this succeeds.
    pub fn from_json(v: &JsonValue) -> (r: Result<CloudEventV1_0, Error>)
        ensures
            match r {
                Ok(e) => spec_from_json_v1(v@) == Some(e@),
                Err(e) => spec_from_json_v1(v@) is None && e@ == ErrorView::SerializationError,
            },
    {
        let ps = match v {
            JsonValue::Object(ps) => ps,
            _ => {
                return Err(Error::SerializationError);
            },
        };
        let ver = String::from_str("1.0");
        match e_obj_get(ps, "specversion") {
            Some(JsonValue::Text(t)) => {
                if !(*t == ver) {
                    return Err(Error::SerializationError);
                }
            },
            _ => {
                return Err(Error::SerializationError);
            },
        }
        let event_type = match e_obj_get(ps, "type") {
            Some(JsonValue::Text(t)) => t.clone(),
            _ => {
                return Err(Error::SerializationError);
            },
        };
        let source = match e_obj_get(ps, "source") {
            Some(JsonValue::Text(t)) => t.clone(),
            _ => {
                return Err(Error::SerializationError);
            },
        };
        let id = match e_obj_get(ps, "id") {
            Some(JsonValue::Text(t)) => t.clone(),
            _ => {
                return Err(Error::SerializationError);
            },
        };
        let time: Option<Timestamp> = match e_obj_get(ps, "time") {
            None => None,
            Some(JsonValue::Text(t)) => {
                match Timestamp::parse(t.as_str()) {
                    Ok(ts) => Some(ts),
                    Err(_) => {
                        return Err(Error::SerializationError);
                    },
                }
            },
            Some(_) => {
                return Err(Error::SerializationError);
            },
        };
        let subject: Option<String> = match e_obj_get(ps, "subject") {
            None => None,
            Some(JsonValue::Text(t)) => Some(t.clone()),
            Some(_) => {
                return Err(Error::SerializationError);
            },
        };
        let dataschema: Option<String> = match e_obj_get(ps, "dataschema") {
            None => None,
            Some(JsonValue::Text(t)) => Some(t.clone()),
            Some(_) => {
                return Err(Error::SerializationError);
            },
        };
        let datacontenttype: Option<String> = match e_obj_get(ps, "datacontenttype") {
            None => None,
            Some(JsonValue::Text(t)) => Some(t.clone()),
            Some(_) => {
                return Err(Error::SerializationError);
            },
        };
        let data: Option<Data> = match e_obj_get(ps, "data") {
            None => None,
            Some(JsonValue::Text(s)) => Some(Data::StringOrBinary(s.clone())),
            Some(other) => Some(Data::Object(clone_json(other))),
        };
        let extensions: Option<Extensions> = match e_obj_get(ps, "extensions") {
            None => None,
            Some(JsonValue::Object(eps)) => Some(ext_map_from_json(eps)),
            Some(_) => {
                return Err(Error::SerializationError);
            },
        };
        Ok(
            CloudEventV1_0 {
                event_type,
                specversion: ver,
                source,
                id,
                time,
                subject,
                dataschema,
                datacontenttype,
                data,
                extensions,
            },
        )
    }

    /// Reads wire text back as a version 1.0 envelope: the text must
    /// be one JSON document whose object passes [`spec_from_json_v1`].
    pub fn from_json_string(s: &str) -> (r: Result<CloudEventV1_0, Error>)
        ensures
            match r {
                Ok(e) => (crate::json::sp_json(s@) matches Some(j) && spec_from_json_v1(j)
                    == Some(e@)),
                Err(e) => (crate::json::sp_json(s@) is None || spec_from_json_v1(
                    crate::json::sp_json(s@)->Some_0,
                ) is None) && e@ == ErrorView::SerializationError,
            },
    {
        match parse_json(s) {
            Some(j) => CloudEventV1_0::from_json(&j),
            None => Err(Error::SerializationError),
        }
    }
}

/// An envelope whose wire form reads back as itself: the version tag
/// is "1.0", a time attribute is valid RFC 3339 (every built envelope
/// has that), the payload and every extension value read back as
/// themselves, and extension names are distinct (every map built
/// through [`Extensions::set`] has that).
pub open spec fn decodable_v1(ev: EventV1View) -> bool {
    &&& ev.specversion == "1.0"@
    &&& (ev.time matches Some(t) ==> rfc3339_accepted(t))
    &&& (ev.data matches Some(d) ==> data_decodable(d))
    &&& (ev.extensions matches Some(m) ==> ext_keys_unique(m) && forall|i: int|
        0 <= i < m.len() ==> ext_val_decodable(#[trigger] m[i].1))
}

/// The wire document of a decodable envelope is well-formed, so the
/// JSON writer-parser round trip applies to it.
proof fn lemma_to_json_v1_wf(ev: EventV1View)
    requires
        decodable_v1(ev),
    ensures
        json_wf(spec_to_json_v1(ev)),
{
    let ps = spec_members_v1(ev);
    match ev.extensions {
        Some(m) => {
            let es = ext_entries_json(m);
            assert forall|t: int| 0 <= t < es.len() implies json_wf(#[trigger] es[t].1) by {
                assert(ext_val_decodable(m[t].1));
            }
            lemma_obj_wf_from_all(es, 0);
            assert(json_wf(JsonView::Object(es)));
        },
        None => {},
    }
    assert forall|t: int| 0 <= t < ps.len() implies json_wf(#[trigger] ps[t].1) by {
        match ev.data {
            Some(d) => {
                assert(data_decodable(d));
            },
            None => {},
        }
    }
    lemma_obj_wf_from_all(ps, 0);
}

/// Reading the wire object of a decodable envelope back yields the
/// envelope again: the value-level half of the round trip.
#[verifier::rlimit(100)]
#[verifier::spinoff_prover]
proof fn lemma_from_to_json_v1(ev: EventV1View)
    requires
        decodable_v1(ev),
    ensures
        spec_from_json_v1(spec_to_json_v1(ev)) == Some(ev),
{
    reveal_strlit("type");
    reveal_strlit("specversion");
    reveal_strlit("source");
    reveal_strlit("id");
    reveal_strlit("time");
    reveal_strlit("subject");
    reveal_strlit("dataschema");
    reveal_strlit("datacontenttype");
    reveal_strlit("data");
    reveal_strlit("extensions");
    reveal_strlit("1.0");
    reveal_with_fuel(obj_index_from, 12);
    assert("type"@ =~= seq!['t', 'y', 'p', 'e']);
    assert("specversion"@ =~= seq!['s', 'p', 'e', 'c', 'v', 'e', 'r', 's', 'i', 'o', 'n']);
    assert("source"@ =~= seq!['s', 'o', 'u', 'r', 'c', 'e']);
    assert("id"@ =~= seq!['i', 'd']);
    assert("time"@ =~= seq!['t', 'i', 'm', 'e']);
    assert("subject"@ =~= seq!['s', 'u', 'b', 'j', 'e', 'c', 't']);
    assert("dataschema"@ =~= seq!['d', 'a', 't', 'a', 's', 'c', 'h', 'e', 'm', 'a']);
    assert("datacontenttype"@ =~= seq![
        'd',
        'a',
        't',
        'a',
        'c',
        'o',
        'n',
        't',
        'e',
        'n',
        't',
        't',
        'y',
        'p',
        'e',
    ]);
    assert("data"@ =~= seq!['d', 'a', 't', 'a']);
    assert("extensions"@ =~= seq!['e', 'x', 't', 'e', 'n', 's', 'i', 'o', 'n', 's']);
    let ps = spec_members_v1(ev);
    assert(obj_get(ps, "type"@) == Some(JsonView::Text(ev.event_type)));
    assert(obj_get(ps, "specversion"@) == Some(JsonView::Text(ev.specversion)));
    assert(obj_get(ps, "source"@) == Some(JsonView::Text(ev.source)));
    assert(obj_get(ps, "id"@) == Some(JsonView::Text(ev.id)));
    assert(obj_get(ps, "time"@) == (match ev.time {
        Some(t) => Some(JsonView::Text(t)),
        None => None,
    }));
    assert(obj_get(ps, "subject"@) == (match ev.subject {
        Some(x) => Some(JsonView::Text(x)),
        None => None,
    }));
    assert(obj_get(ps, "dataschema"@) == (match ev.dataschema {
        Some(x) => Some(JsonView::Text(x)),
        None => None,
    }));
    assert(obj_get(ps, "datacontenttype"@) == (match ev.datacontenttype {
        Some(x) => Some(JsonView::Text(x)),
        None => None,
    }));
    assert(obj_get(ps, "data"@) == (match ev.data {
        Some(d) => Some(data_json(d)),
        None => None,
    }));
    assert(obj_get(ps, "extensions"@) == (match ev.extensions {
        Some(m) => Some(JsonView::Object(ext_entries_json(m))),
        None => None,
    }));
    match ev.extensions {
        Some(m) => {
            lemma_ext_round_from(m, 0);
            assert(m.subrange(0, 0) =~= Seq::<(Seq<char>, ExtensionValueView)>::empty());
            assert(ext_from_json(ext_entries_json(m), 0, Seq::empty()) == m);
        },
        None => {},
    }
    match ev.data {
        Some(d) => {
            assert(data_decodable(d));
            match d {
                DataView::StringOrBinary(s) => {
                    assert(data_json(d) == JsonView::Text(s));
                },
                DataView::Object(j) => {
                    assert(!(j is Text));
                },
            }
        },
        None => {},
    }
    match spec_from_json_v1(spec_to_json_v1(ev)) {
        Some(got) => {
            assert(got =~= ev);
        },
        None => {
            assert(false);
        },
    }
}

/// The whole version 1.0 round trip: the wire text of a decodable
/// envelope parses back to its wire object, and that object reads
/// back as the envelope itself.
pub proof fn lemma_decode_encode_v1(ev: EventV1View)
    requires
        decodable_v1(ev),
    ensures
        sp_json(spec_encode_v1(ev)) == Some(spec_to_json_v1(ev)),
        spec_from_json_v1(spec_to_json_v1(ev)) == Some(ev),
{
    lemma_to_json_v1_wf(ev);
    lemma_json_rt(spec_to_json_v1(ev));
    lemma_from_to_json_v1(ev);
}

} // verus!
