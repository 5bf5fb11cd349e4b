//! The timestamp attribute: an RFC 3339 date-and-time with a fixed
//! offset, kept as the text it was given in, so that encoding
//! preserves the original offset and spelling.

use vstd::prelude::*;
use crate::trusted::{check_rfc3339, now_rfc3339, rfc3339_accepted};

verus! {

/// A validated RFC 3339 timestamp.  A value of this type always holds
/// text that chrono accepts, see [`Timestamp::parse`].
#[derive(Debug, PartialEq, Clone)]
pub struct Timestamp {
    raw: String,
}

impl View for Timestamp {
    type V = Seq<char>;

    closed spec fn view(&self) -> Seq<char> {
        self.raw@
    }
}

impl Timestamp {
    /// The timestamp's text is valid RFC 3339.
    pub open spec fn wf(&self) -> bool {
        rfc3339_accepted(self@)
    }

    /// Validates `s` as RFC 3339 and keeps it verbatim.  Fails with
    /// the parser's message exactly when chrono refuses the text.
    pub fn parse(s: &str) -> (r: Result<Timestamp, String>)
        ensures
            r is Ok <==> rfc3339_accepted(s@),
            r matches Ok(t) ==> t@ == s@ && t.wf(),
    {
        match check_rfc3339(s) {
            Ok(u) => Ok(Timestamp { raw: s.to_owned() }),
            Err(e) => Err(e),
        }
    }

    /// The current local time, as a fixed-offset RFC 3339 timestamp.
    pub fn now() -> (r: Timestamp)
        ensures
            r.wf(),
    {
        Timestamp { raw: now_rfc3339() }
    }

    /// The timestamp's RFC 3339 text.
    pub fn as_rfc3339(&self) -> (r: &str)
        ensures
            r@ == self@,
    {
        self.raw.as_str()
    }
}

} // verus!
