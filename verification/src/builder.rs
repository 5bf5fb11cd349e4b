//! The entry point for building an envelope in a chosen spec version.

use vstd::prelude::*;
use crate::v0_2::{BuilderV02View, CloudEventV0_2Builder};
use crate::v1_0::{BuilderV1View, CloudEventV1_0Builder};

verus! {

/// Opens a builder for the desired spec version; the current version
/// is 1.0.
pub struct CloudEventBuilder;

impl CloudEventBuilder {
    /// An empty builder for the current spec version.
    pub fn default() -> (r: CloudEventV1_0Builder)
        ensures
            r@ == (BuilderV1View {
                event_type: None,
                source: None,
                id: None,
                time: None,
                subject: None,
                dataschema: None,
                datacontenttype: None,
                data: None,
                extensions: None,
            }),
    {
        CloudEventV1_0Builder::default()
    }

    /// An empty builder for spec version 0.2.
    pub fn v0_2() -> (r: CloudEventV0_2Builder)
        ensures
            r@ == (BuilderV02View {
                event_type: None,
                source: None,
                id: None,
                time: None,
                schemaurl: None,
                contenttype: None,
                data: None,
                extensions: None,
            }),
    {
        CloudEventV0_2Builder::default()
    }

    /// An empty builder for spec version 1.0.
    pub fn v1_0() -> (r: CloudEventV1_0Builder)
        ensures
            r@ == (BuilderV1View {
                event_type: None,
                source: None,
                id: None,
                time: None,
                subject: None,
                dataschema: None,
                datacontenttype: None,
                data: None,
                extensions: None,
            }),
    {
        CloudEventV1_0Builder::default()
    }
}

} // verus!
