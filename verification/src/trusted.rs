//! The boundary to the outside crates and to the few pieces of std that
//! vstd leaves unspecified.  Every function here is `external_body`: its
//! contract is believed, not proved, and the doc comment names exactly
//! what it relies on.

use vstd::prelude::*;

verus! {

/// Relies on std's `String::push`: appends the character to the string.
#[verifier::external_body]
pub(crate) fn push_char(s: &mut String, c: char)
    ensures
        final(s)@ == old(s)@.push(c),
{
    s.push(c);
}

/// Relies on std's `char::from_u32`: `Some` exactly on Unicode scalar
/// values, and then the character with that code.
#[verifier::external_body]
pub(crate) fn char_from_u32(u: u32) -> (r: Option<char>)
    ensures
        match r {
            Some(c) => (u < 0xD800 || (0xE000 <= u && u <= 0x10FFFF)) && c == u as char,
            None => !(u < 0xD800 || (0xE000 <= u && u <= 0x10FFFF)),
        },
{
    char::from_u32(u)
}

/// Whether the `url` crate accepts `s` as a CloudEvents URI reference:
/// `Url::parse` returns `Ok`, or fails only for want of a base URL,
/// which marks a relative reference.  The outcome depends on the
/// characters alone.
pub uninterp spec fn uri_reference_accepted(s: Seq<char>) -> bool;

/// Relies on url's `Url::parse`: `Ok` on an absolute URI,
/// `ParseError::RelativeUrlWithoutBase` on a bare relative reference,
/// and another error on a malformed string, whose message the result
/// carries.
#[verifier::external_body]
pub(crate) fn check_uri_reference(s: &str) -> (r: Result<(), String>)
    ensures
        r is Ok <==> uri_reference_accepted(s@),
{
    match url::Url::parse(s) {
        Ok(_) => Ok(()),
        Err(url::ParseError::RelativeUrlWithoutBase) => Ok(()),
        Err(e) => Err(e.to_string()),
    }
}

/// Whether chrono accepts `s` as an RFC 3339 timestamp:
/// `DateTime::parse_from_rfc3339` returns `Ok`.  The outcome depends
/// on the characters alone.
pub uninterp spec fn rfc3339_accepted(s: Seq<char>) -> bool;

/// Relies on chrono's `DateTime::parse_from_rfc3339`: `Ok` exactly on
/// a valid RFC 3339 date-and-time string; the error's message is
/// carried on failure.
#[verifier::external_body]
pub(crate) fn check_rfc3339(s: &str) -> (r: Result<(), String>)
    ensures
        r is Ok <==> rfc3339_accepted(s@),
{
    match chrono::DateTime::parse_from_rfc3339(s) {
        Ok(_) => Ok(()),
        Err(e) => Err(e.to_string()),
    }
}

/// Relies on chrono's `Local::now` and `DateTime::to_rfc3339`: the
/// current local time, rendered as a valid RFC 3339 string that
/// `parse_from_rfc3339` accepts back.  Nothing else is promised of a
/// clock reading.
#[verifier::external_body]
pub(crate) fn now_rfc3339() -> (r: String)
    ensures
        rfc3339_accepted(r@),
{
    let now: chrono::DateTime<chrono::FixedOffset> = chrono::DateTime::from(chrono::Local::now());
    now.to_rfc3339()
}

/// The base64 rendering of a byte sequence, standard alphabet with
/// padding.  The result depends on the bytes alone.
pub uninterp spec fn base64_of(b: Seq<u8>) -> Seq<char>;

/// Relies on base64's `encode`: the standard-alphabet, padded base64
/// text of the bytes.
#[verifier::external_body]
pub(crate) fn base64_encode(b: &[u8]) -> (r: String)
    ensures
        r@ == base64_of(b@),
{
    base64::encode(b)
}

} // verus!
