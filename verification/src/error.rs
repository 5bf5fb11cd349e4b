//! The errors an event construction or decoding can surface.

use vstd::prelude::*;
use vstd::string::StringExecFns;

verus! {

/// Why a build or a decoding failed.
#[derive(Debug, PartialEq)]
pub enum Error {
    /// A required attribute was never set before the build.
    MissingField(String),
    /// A validated attribute was set but failed its format check; the
    /// second field carries the underlying parser's message.
    InvalidField(String, String),
    /// A value could not be converted to or from its wire form.
    SerializationError,
}

/// The mathematical shape of an [`Error`].
#[verifier::ext_equal]
pub enum ErrorView {
    MissingField(Seq<char>),
    InvalidField(Seq<char>, Seq<char>),
    SerializationError,
}

impl View for Error {
    type V = ErrorView;

    open spec fn view(&self) -> ErrorView {
        match self {
            Error::MissingField(f) => ErrorView::MissingField(f@),
            Error::InvalidField(f, d) => ErrorView::InvalidField(f@, d@),
            Error::SerializationError => ErrorView::SerializationError,
        }
    }
}

impl Error {
    /// A short description of the error.
    pub fn message(&self) -> (r: String)
        ensures
            self@ matches ErrorView::MissingField(f) ==> r@ == f + " is required"@,
            self@ matches ErrorView::InvalidField(f, d) ==> r@ == f + " is invalid: "@ + d,
            self@ is SerializationError ==> r@ == "serialization error"@,
    {
        match self {
            Error::MissingField(f) => f.clone().concat(" is required"),
            Error::InvalidField(f, d) => f.clone().concat(" is invalid: ").concat(d.as_str()),
            Error::SerializationError => String::from_str("serialization error"),
        }
    }
}

} // verus!
