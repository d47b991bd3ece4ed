//! What can go wrong while a request is served.

use crate::text::concat2;
use vstd::prelude::*;

verus! {

/// A failure, with the text of its cause.
#[derive(Debug)]
pub enum HexError {
    Redis(String),
    Io(String),
    Http(String),
    Json(String),
    NotFound(String),
    BadRequest(String),
    Engine(String),
    Internal(String),
}

/// The result of an operation that can fail with a [`HexError`].
pub type Result<T> = std::result::Result<T, HexError>;

impl HexError {
    /// The text of the cause.
    pub open spec fn cause(self) -> Seq<char> {
        match self {
            HexError::Redis(e) => e@,
            HexError::Io(e) => e@,
            HexError::Http(e) => e@,
            HexError::Json(e) => e@,
            HexError::NotFound(e) => e@,
            HexError::BadRequest(e) => e@,
            HexError::Engine(e) => e@,
            HexError::Internal(e) => e@,
        }
    }

    /// What stands in front of the cause in a message.
    pub open spec fn label(self) -> Seq<char> {
        match self {
            HexError::Redis(_) => "Redis error: "@,
            HexError::Io(_) => "IO error: "@,
            HexError::Http(_) => "HTTP error: "@,
            HexError::Json(_) => "JSON error: "@,
            HexError::NotFound(_) => "Not found: "@,
            HexError::BadRequest(_) => "Bad request: "@,
            HexError::Engine(_) => "Engine error: "@,
            HexError::Internal(_) => "Internal: "@,
        }
    }

    /// The message shown for the failure: its kind and its cause.
    pub fn message(&self) -> (r: String)
        ensures
            r@ == self.label() + self.cause(),
    {
        match self {
            HexError::Redis(e) => concat2("Redis error: ", e.as_str()),
            HexError::Io(e) => concat2("IO error: ", e.as_str()),
            HexError::Http(e) => concat2("HTTP error: ", e.as_str()),
            HexError::Json(e) => concat2("JSON error: ", e.as_str()),
            HexError::NotFound(e) => concat2("Not found: ", e.as_str()),
            HexError::BadRequest(e) => concat2("Bad request: ", e.as_str()),
            HexError::Engine(e) => concat2("Engine error: ", e.as_str()),
            HexError::Internal(e) => concat2("Internal: ", e.as_str()),
        }
    }

    /// The HTTP status and the message that answer a request which failed so.
    pub fn into_response(self) -> (r: (u16, String))
        ensures
            r.0 == (match self {
                HexError::NotFound(_) => 404u16,
                HexError::BadRequest(_) => 400u16,
                _ => 500u16,
            }),
            r.1@ == self.label() + self.cause(),
    {
        let status: u16 = match &self {
            HexError::NotFound(_) => 404,
            HexError::BadRequest(_) => 400,
            _ => 500,
        };
        (status, self.message())
    }
}

} // verus!
