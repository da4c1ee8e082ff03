//! The buffered backend calls around the stream: what goes out and how the
//! JSON envelope that comes back is read.
//!
//! The network round trip itself belongs to the caller; this module builds
//! the request body for the session call and extracts the named field from a
//! `{"result":{...}}` envelope, failing with the protocol error when the
//! field is missing or of the wrong shape.
use vstd::prelude::*;

use vstd::utf8::encode_utf8;

use crate::json::{as_text, get_key, json_of, obj_lookup, parse_json, JsonModel};
use crate::request::{quoted, RelayError};

verus! {

/// The string under `result.<field>` of a response envelope, if the
/// envelope has that shape.
pub open spec fn spec_result_field(s: Seq<char>, field: Seq<char>) -> Option<Seq<char>> {
    match json_of(s) {
        Some(JsonModel::Object(pairs)) => match obj_lookup(pairs, "result"@) {
            Some(JsonModel::Object(rp)) => match obj_lookup(rp, field) {
                Some(JsonModel::Text(t)) => Some(t),
                _ => None,
            },
            _ => None,
        },
        _ => None,
    }
}

/// Extract the named string field of an envelope's `result` object.  A
/// missing field — or a body of any other shape — is the protocol error,
/// surfaced to the caller.
pub fn parse_result_field(body: &str, field: &str) -> (r: Result<String, RelayError>)
    ensures
        match r {
            Ok(v) => spec_result_field(body@, field@) == Some(v@),
            Err(e) => spec_result_field(body@, field@) is None && e == RelayError::MissingField,
        },
{
    match parse_json(body) {
        None => Err(RelayError::MissingField),
        Some(v) => match get_key(&v, "result") {
            None => Err(RelayError::MissingField),
            Some(res) => match get_key(res, field) {
                None => Err(RelayError::MissingField),
                Some(f) => match as_text(f) {
                    Some(s) => Ok(s.to_owned()),
                    None => Err(RelayError::MissingField),
                },
            },
        },
    }
}

/// The body of a session-refresh call: the session to refresh, or an empty
/// object to mint a fresh one.
pub open spec fn spec_session_body(sid: Option<Seq<char>>) -> Seq<u8> {
    match sid {
        Some(t) => encode_utf8("{\"session_id\":"@) + quoted(t) + encode_utf8("}"@),
        None => encode_utf8("{}"@),
    }
}

/// Serialize the session-refresh body.
pub fn session_body(session_id: Option<&str>) -> (r: Vec<u8>)
    ensures
        match session_id {
            Some(s) => r@ == spec_session_body(Some(s@)),
            None => r@ == spec_session_body(None),
        },
{
    let mut out: Vec<u8> = Vec::new();
    assert(out@ =~= Seq::<u8>::empty());
    match session_id {
        Some(s) => {
            crate::request::push_lit(&mut out, "{\"session_id\":");
            crate::request::push_quoted(&mut out, s);
            crate::request::push_lit(&mut out, "}");
            assert(out@ =~= spec_session_body(Some(s@)));
        },
        None => {
            crate::request::push_lit(&mut out, "{}");
            assert(out@ =~= spec_session_body(None));
        },
    }
    out
}

} // verus!
