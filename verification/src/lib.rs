//! An event envelope data model: the CloudEvents core in spec
//! versions 0.2 and 1.0.
//!
//! An envelope is assembled through a per-version builder, which
//! stores raw field assignments and validates them all at build time,
//! in a fixed documented order: required fields first, then the
//! format of the source, time and schema attributes.  A successful
//! build yields an immutable envelope; the first failing check yields
//! the matching [`Error`].
//!
//! Envelopes carry their wire form themselves: [`CloudEvent::decode`]
//! and the per-version `to_json_string` methods read and write the
//! JSON wire format directly, over the document model in [`json`].
//! Both directions are specified exactly, and decoding is proved to
//! invert encoding for every decodable envelope, see
//! [`event::lemma_round_trip_v1_0`] and
//! [`event::lemma_round_trip_v0_2`].

pub mod builder;
pub mod error;
pub mod event;
pub mod json;
pub mod time;
mod trusted;
pub mod v0_2;
pub mod v1_0;
pub mod value;

pub use crate::builder::CloudEventBuilder;
pub use crate::error::Error;
pub use crate::event::CloudEvent;
pub use crate::json::JsonValue;
pub use crate::time::Timestamp;
pub use crate::value::{Data, ExtensionValue, Extensions};
