//! The version-polymorphic envelope: one type over both spec
//! versions, with decoding that tries the 1.0 shape first and the 0.2
//! shape second.

use vstd::prelude::*;
use crate::error::{Error, ErrorView};
use crate::json::{parse_json, sp_json, JsonView};
use crate::time::Timestamp;
use crate::v0_2::{
    decodable_v02, lemma_decode_encode_v02, spec_encode_v02, spec_from_json_v02,
    spec_members_v02, spec_to_json_v02, CloudEventV0_2, EventV02View,
};
use crate::v1_0::{
    decodable_v1, lemma_decode_encode_v1, spec_encode_v1, spec_from_json_v1, spec_to_json_v1,
    CloudEventV1_0, EventV1View,
};
use crate::value::{Data, Extensions};

verus! {

/// An envelope of either spec version.
#[derive(Debug, PartialEq)]
pub enum CloudEvent {
    V1_0(CloudEventV1_0),
    V0_2(CloudEventV0_2),
}

/// The mathematical shape of a [`CloudEvent`].
#[verifier::ext_equal]
pub enum CloudEventView {
    V1_0(EventV1View),
    V0_2(EventV02View),
}

impl View for CloudEvent {
    type V = CloudEventView;

    open spec fn view(&self) -> CloudEventView {
        match self {
            CloudEvent::V1_0(e) => CloudEventView::V1_0(e@),
            CloudEvent::V0_2(e) => CloudEventView::V0_2(e@),
        }
    }
}

/// The wire text of an envelope of either version.
pub open spec fn spec_encode(c: CloudEventView) -> Seq<char> {
    match c {
        CloudEventView::V1_0(ev) => spec_encode_v1(ev),
        CloudEventView::V0_2(ev) => spec_encode_v02(ev),
    }
}

/// What decoding wire text yields: the document must parse, and its
/// object is read as a version 1.0 envelope if it passes that shape,
/// as a version 0.2 envelope if it passes only that one, and not at
/// all otherwise.
pub open spec fn spec_decode(s: Seq<char>) -> Option<CloudEventView> {
    match sp_json(s) {
        None => None,
        Some(j) => match spec_from_json_v1(j) {
            Some(ev) => Some(CloudEventView::V1_0(ev)),
            None => match spec_from_json_v02(j) {
                Some(ev) => Some(CloudEventView::V0_2(ev)),
                None => None,
            },
        },
    }
}

impl CloudEvent {
    /// The envelope's wire text.
    pub fn encode(&self) -> (r: String)
        ensures
            r@ == spec_encode(self@),
    {
        match self {
            CloudEvent::V1_0(e) => e.to_json_string(),
            CloudEvent::V0_2(e) => e.to_json_string(),
        }
    }

    /// Reads wire text as an envelope, trying the version 1.0 shape
    /// first and the version 0.2 shape second; see [`spec_decode`].
    pub fn decode(s: &str) -> (r: Result<CloudEvent, Error>)
        ensures
            match r {
                Ok(c) => spec_decode(s@) == Some(c@),
                Err(e) => spec_decode(s@) is None && e@ == ErrorView::SerializationError,
            },
    {
        let j = match parse_json(s) {
            Some(j) => j,
            None => {
                return Err(Error::SerializationError);
            },
        };
        match CloudEventV1_0::from_json(&j) {
            Ok(e) => Ok(CloudEvent::V1_0(e)),
            Err(_) => match CloudEventV0_2::from_json(&j) {
                Ok(e) => Ok(CloudEvent::V0_2(e)),
                Err(_) => Err(Error::SerializationError),
            },
        }
    }

    /// The event type, whatever the version.
    pub fn event_type(&self) -> (r: &str)
        ensures
            match self@ {
                CloudEventView::V1_0(ev) => r@ == ev.event_type,
                CloudEventView::V0_2(ev) => r@ == ev.event_type,
            },
    {
        match self {
            CloudEvent::V1_0(e) => e.event_type(),
            CloudEvent::V0_2(e) => e.event_type(),
        }
    }

    /// The spec version: "1.0" or "0.2".
    pub fn specversion(&self) -> (r: &str)
        ensures
            match self@ {
                CloudEventView::V1_0(ev) => r@ == ev.specversion,
                CloudEventView::V0_2(ev) => r@ == ev.specversion,
            },
    {
        match self {
            CloudEvent::V1_0(e) => e.specversion(),
            CloudEvent::V0_2(e) => e.specversion(),
        }
    }

    /// The source, whatever the version.
    pub fn source(&self) -> (r: &str)
        ensures
            match self@ {
                CloudEventView::V1_0(ev) => r@ == ev.source,
                CloudEventView::V0_2(ev) => r@ == ev.source,
            },
    {
        match self {
            CloudEvent::V1_0(e) => e.source(),
            CloudEvent::V0_2(e) => e.source(),
        }
    }

    /// The event id, whatever the version.
    pub fn event_id(&self) -> (r: &str)
        ensures
            match self@ {
                CloudEventView::V1_0(ev) => r@ == ev.id,
                CloudEventView::V0_2(ev) => r@ == ev.id,
            },
    {
        match self {
            CloudEvent::V1_0(e) => e.event_id(),
            CloudEvent::V0_2(e) => e.event_id(),
        }
    }

    /// The event time, whatever the version.
    pub fn event_time(&self) -> (r: Option<&Timestamp>)
        ensures
            match self@ {
                CloudEventView::V1_0(ev) => match r {
                    Some(t) => ev.time == Some(t@),
                    None => ev.time is None,
                },
                CloudEventView::V0_2(ev) => match r {
                    Some(t) => ev.time == Some(t@),
                    None => ev.time is None,
                },
            },
    {
        match self {
            CloudEvent::V1_0(e) => e.event_time(),
            CloudEvent::V0_2(e) => e.event_time(),
        }
    }

    /// The data payload, whatever the version.
    pub fn data(&self) -> (r: Option<&Data>)
        ensures
            match self@ {
                CloudEventView::V1_0(ev) => match r {
                    Some(d) => ev.data == Some(d@),
                    None => ev.data is None,
                },
                CloudEventView::V0_2(ev) => match r {
                    Some(d) => ev.data == Some(d@),
                    None => ev.data is None,
                },
            },
    {
        match self {
            CloudEvent::V1_0(e) => e.data(),
            CloudEvent::V0_2(e) => e.data(),
        }
    }

    /// The extension attributes, whatever the version.
    pub fn extensions(&self) -> (r: Option<&Extensions>)
        ensures
            match self@ {
                CloudEventView::V1_0(ev) => match r {
                    Some(m) => ev.extensions == Some(m@),
                    None => ev.extensions is None,
                },
                CloudEventView::V0_2(ev) => match r {
                    Some(m) => ev.extensions == Some(m@),
                    None => ev.extensions is None,
                },
            },
    {
        match self {
            CloudEvent::V1_0(e) => e.extensions(),
            CloudEvent::V0_2(e) => e.extensions(),
        }
    }
}

/// Encoding idempotence for version 1.0: decoding the wire text of a
/// decodable envelope yields the envelope again, wrapped in its
/// version.
pub proof fn lemma_round_trip_v1_0(ev: EventV1View)
    requires
        decodable_v1(ev),
    ensures
        spec_decode(spec_encode_v1(ev)) == Some(CloudEventView::V1_0(ev)),
{
    lemma_decode_encode_v1(ev);
}

/// Encoding idempotence for version 0.2: decoding the wire text of a
/// decodable envelope yields the envelope again, wrapped in its
/// version.  The version 1.0 shape is tried first and refuses the
/// text, because its "specversion" member is "0.2".
pub proof fn lemma_round_trip_v0_2(ev: EventV02View)
    requires
        decodable_v02(ev),
    ensures
        spec_decode(spec_encode_v02(ev)) == Some(CloudEventView::V0_2(ev)),
{
    lemma_decode_encode_v02(ev);
    let ps = spec_members_v02(ev);
    reveal_strlit("type");
    reveal_strlit("specversion");
    reveal_strlit("1.0");
    reveal_strlit("0.2");
    assert("type"@ =~= seq!['t', 'y', 'p', 'e']);
    assert("specversion"@ =~= seq!['s', 'p', 'e', 'c', 'v', 'e', 'r', 's', 'i', 'o', 'n']);
    assert("1.0"@ =~= seq!['1', '.', '0']);
    assert("0.2"@ =~= seq!['0', '.', '2']);
    assert(ps[0].0 == "type"@);
    assert(ps[1].0 == "specversion"@);
    assert(ps[1].1 == JsonView::Text(ev.specversion));
    reveal_with_fuel(crate::json::obj_index_from, 3);
    assert(crate::json::obj_index_from(ps, "specversion"@, 0) == 1);
    assert(crate::json::obj_get(ps, "specversion"@) == Some(JsonView::Text("0.2"@)));
    assert(spec_from_json_v1(spec_to_json_v02(ev)) is None);
}

} // verus!
