//! What the terminal interface and the service say to each other.

use crate::outside::decode_text;
use crate::text::concat2;
use vstd::prelude::*;
use vstd::utf8::*;

verus! {

/// Where the service is.
pub const API_BASE: &'static str = "http://localhost:8000";

/// The address of a part of the service.
pub fn endpoint(path: &str) -> (r: String)
    ensures
        r@ == API_BASE@ + path@,
{
    concat2(API_BASE, path)
}

/// How much of the memory of the graphics card is in use.
pub struct Vram {
    /// In percent of the whole.
    pub percent: u64,
    /// In gigabytes, as shown.
    pub used: String,
    /// The whole in gigabytes, as shown.
    pub total: String,
}

/// The state of the service.
pub struct Stats {
    pub engine: String,
    pub mode: String,
    pub vram: Option<Vram>,
    pub active_sessions: u32,
    pub model_loaded: bool,
}

/// What arrives while a reply is streamed.
#[derive(Debug)]
pub enum StreamEvent {
    Token(String),
    Done,
    Error(String),
}

/// The event of bytes that arrived, or of the failure that ended the stream.
/// Bytes that are not UTF-8 make none.
pub fn stream_event(chunk: Result<Vec<u8>, String>) -> (r: Option<StreamEvent>)
    ensures
        match chunk {
            Ok(b) => if valid_utf8(b@) {
                r matches Some(StreamEvent::Token(t)) && t@ == decode_utf8(b@)
            } else {
                r is None
            },
            Err(e) => r == Some(StreamEvent::Error(e)),
        },
{
    match chunk {
        Ok(b) => match decode_text(b.as_slice()) {
            Some(t) => Some(StreamEvent::Token(t)),
            None => None,
        },
        Err(e) => Some(StreamEvent::Error(e)),
    }
}

/// What comes of a request for a streamed reply.
pub enum Arrival {
    /// Bytes of the reply.
    Chunk(Vec<u8>),
    /// The reply is complete.
    End,
    /// The request failed, or the reply broke off.
    Failure(String),
}

/// The event of what came of a request, if it makes one, and whether it is the
/// last: every event but the last is a token, and the last one is not.
pub fn stream_step(a: Arrival) -> (r: (Option<StreamEvent>, bool))
    ensures
        match a {
            Arrival::Chunk(b) => if valid_utf8(b@) {
                r.0 matches Some(StreamEvent::Token(t)) && t@ == decode_utf8(b@)
            } else {
                r.0 is None
            },
            Arrival::End => r.0 == Some(StreamEvent::Done),
            Arrival::Failure(e) => r.0 == Some(StreamEvent::Error(e)),
        },
        r.1 == !(a is Chunk),
        r.1 <==> (r.0 matches Some(ev) && !(ev is Token)),
{
    match a {
        Arrival::Chunk(b) => (stream_event(Ok(b)), false),
        Arrival::End => (Some(StreamEvent::Done), true),
        Arrival::Failure(e) => (stream_event(Err(e)), true),
    }
}

} // verus!
