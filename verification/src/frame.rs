//! Inbound frame handling. A client text frame is expected to be JSON of the
//! shape `{ "message": "<text>" }`; any other shape, or a text over the
//! length bound, makes the frame a silent drop rather than an error.

use vstd::prelude::*;
use crate::envelope::{Envelope, MAX_TEXT_LEN, envelope_valid};

verus! {

/// The string stored under `key` when `doc` parses as a JSON object holding
/// a string there; nothing otherwise. Named, not spelled out: it stands for
/// what the JSON parser returns, which is a function of the two arguments
/// alone.
pub uninterp spec fn json_string_field(doc: Seq<char>, key: Seq<char>) -> Option<Seq<char>>;

/// The `message` field carried by an inbound frame of the expected shape,
/// or nothing when the frame has another shape.
pub open spec fn frame_message(frame: Seq<char>) -> Option<Seq<char>> {
    json_string_field(frame, "message"@)
}

/// The text the inbound path accepts out of a raw frame: the frame's
/// `message` field, and only when that text stays within [`MAX_TEXT_LEN`]
/// characters.
pub open spec fn accepted_text(frame: Seq<char>) -> Option<Seq<char>> {
    match frame_message(frame) {
        Some(t) => if t.len() <= MAX_TEXT_LEN {
            Some(t)
        } else {
            None
        },
        None => None,
    }
}

/// Relies on serde_json::from_str and serde_json::Value::get: parses `doc`
/// as a JSON document and hands out the string stored under `key` when the
/// document is an object with a string there, and nothing otherwise.
#[verifier::external_body]
fn json_string_field_exec(doc: &str, key: &str) -> (r: Option<String>)
    ensures
        (match (r, json_string_field(doc@, key@)) {
            (Some(m), Some(t)) => m@ == t,
            (None, None) => true,
            _ => false,
        }),
{
    match serde_json::from_str::<serde_json::Value>(doc) {
        Ok(v) => match v.get(key) {
            Some(serde_json::Value::String(m)) => Some(m.clone()),
            _ => None,
        },
        Err(_) => None,
    }
}

/// Decide the inbound step for one raw text frame: wrap the frame's
/// `message` field under `user`'s name when the frame has the expected shape
/// and the text respects the length bound; otherwise the frame is dropped
/// and nothing is published. The user name is never taken from the frame.
pub fn inbound_envelope(user: &String, frame: &str) -> (r: Option<Envelope>)
    ensures
        (match (r, accepted_text(frame@)) {
            (Some(e), Some(t)) => e@.user == user@ && e@.text == t && envelope_valid(e@),
            (None, None) => true,
            _ => false,
        }),
{
    match json_string_field_exec(frame, "message") {
        Some(text) => Envelope::new(user.clone(), text),
        None => None,
    }
}

} // verus!
