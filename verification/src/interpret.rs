//! Classification of a decoded frame payload into the event it stands for.
//!
//! A payload is either one of the three sentinel tokens, or JSON whose keys
//! decide the event: a `content` string is the answer token itself, a
//! `search_suggestions` key forwards the whole object, an `extract` object
//! with a `data` member forwards that member, and anything else is dropped.
//! Text that fails to parse as JSON is dropped too, never an error: one
//! malformed frame must not end an otherwise healthy stream.
use vstd::prelude::*;

use crate::bytes::{bytes_eq, lossy_text_of, spec_trim, starts_with, trim_bytes, utf8_lossy};
use crate::bytes::copy_range;
use crate::json::{as_text, get_key, obj_lookup, parse_json, spec_json_text, to_json_text};
use crate::json::{json_model, json_of, JsonModel};

verus! {

/// The three terminal tokens a stream can end with.
#[derive(Clone, Copy, PartialEq, Eq, Structural, Debug)]
pub enum SentinelKind {
    Done,
    Error,
    Sensitive,
}

/// What a frame payload means.
pub enum InterpretedPayload {
    /// An answer token: the string under a `content` key.
    Text(String),
    /// A payload with a `search_suggestions` key, forwarded whole.
    SearchSuggestions(String),
    /// The value under `extract.data`, forwarded verbatim.
    Extracted(String),
    /// Nothing worth relaying; silently dropped.
    Empty,
    /// One of the terminal tokens.
    Sentinel(SentinelKind),
}

/// The abstract counterpart of `InterpretedPayload`.
pub enum PayloadModel {
    Text(Seq<char>),
    SearchSuggestions(Seq<char>),
    Extracted(Seq<char>),
    Empty,
    Sentinel(SentinelKind),
}

impl View for InterpretedPayload {
    type V = PayloadModel;

    open spec fn view(&self) -> PayloadModel {
        match self {
            InterpretedPayload::Text(s) => PayloadModel::Text(s@),
            InterpretedPayload::SearchSuggestions(s) => PayloadModel::SearchSuggestions(s@),
            InterpretedPayload::Extracted(s) => PayloadModel::Extracted(s@),
            InterpretedPayload::Empty => PayloadModel::Empty,
            InterpretedPayload::Sentinel(k) => PayloadModel::Sentinel(*k),
        }
    }
}

/// The bytes of the `[DONE]` token.
pub open spec fn done_bytes() -> Seq<u8> {
    vstd::utf8::encode_utf8("[DONE]"@)
}

/// The bytes of the `[ERROR]` token.
pub open spec fn error_bytes() -> Seq<u8> {
    vstd::utf8::encode_utf8("[ERROR]"@)
}

/// The bytes of the `[SENSITIVE]` token.
pub open spec fn sensitive_bytes() -> Seq<u8> {
    vstd::utf8::encode_utf8("[SENSITIVE]"@)
}

/// The token text of a sentinel kind.
pub open spec fn sentinel_text(k: SentinelKind) -> Seq<char> {
    match k {
        SentinelKind::Done => "[DONE]"@,
        SentinelKind::Error => "[ERROR]"@,
        SentinelKind::Sensitive => "[SENSITIVE]"@,
    }
}

/// How a JSON payload is classified, by key priority: `content` first,
/// then `search_suggestions`, then `extract.data`; anything else — including
/// a payload that is no object at all — is dropped.
pub open spec fn spec_classify(j: JsonModel) -> PayloadModel {
    match j {
        JsonModel::Object(pairs) => match obj_lookup(pairs, "content"@) {
            Some(JsonModel::Text(t)) => PayloadModel::Text(t),
            _ => if obj_lookup(pairs, "search_suggestions"@) is Some {
                PayloadModel::SearchSuggestions(spec_json_text(j))
            } else {
                match obj_lookup(pairs, "extract"@) {
                    Some(JsonModel::Object(eps)) => match obj_lookup(eps, "data"@) {
                        Some(d) => PayloadModel::Extracted(spec_json_text(d)),
                        None => PayloadModel::Empty,
                    },
                    _ => PayloadModel::Empty,
                }
            },
        },
        _ => PayloadModel::Empty,
    }
}

/// What a payload means: a sentinel token taken literally, or its JSON
/// classified by `spec_classify`; unparseable text is dropped.
pub open spec fn spec_interpret(p: Seq<u8>) -> PayloadModel {
    if p == done_bytes() {
        PayloadModel::Sentinel(SentinelKind::Done)
    } else if p == error_bytes() {
        PayloadModel::Sentinel(SentinelKind::Error)
    } else if p == sensitive_bytes() {
        PayloadModel::Sentinel(SentinelKind::Sensitive)
    } else {
        match json_of(lossy_text_of(p)) {
            None => PayloadModel::Empty,
            Some(j) => spec_classify(j),
        }
    }
}

/// Classify one decoded payload.
pub fn interpret_payload(payload: &[u8]) -> (r: InterpretedPayload)
    ensures
        r@ == spec_interpret(payload@),
{
    if bytes_eq(payload, "[DONE]".as_bytes()) {
        return InterpretedPayload::Sentinel(SentinelKind::Done);
    }
    if bytes_eq(payload, "[ERROR]".as_bytes()) {
        return InterpretedPayload::Sentinel(SentinelKind::Error);
    }
    if bytes_eq(payload, "[SENSITIVE]".as_bytes()) {
        return InterpretedPayload::Sentinel(SentinelKind::Sensitive);
    }
    let text = utf8_lossy(payload);
    match parse_json(text.as_str()) {
        None => InterpretedPayload::Empty,
        Some(v) => classify(&v),
    }
}

/// Classify a parsed JSON payload by its keys.
fn classify(v: &serde_json::Value) -> (r: InterpretedPayload)
    ensures
        r@ == spec_classify(json_model(*v)),
{
    match get_key(v, "content") {
        Some(c) => match as_text(c) {
            Some(s) => {
                return InterpretedPayload::Text(s.to_owned());
            },
            None => {},
        },
        None => {},
    }
    match get_key(v, "search_suggestions") {
        Some(_) => {
            return InterpretedPayload::SearchSuggestions(to_json_text(v));
        },
        None => {},
    }
    match get_key(v, "extract") {
        Some(e) => match get_key(e, "data") {
            Some(d) => {
                return InterpretedPayload::Extracted(to_json_text(d));
            },
            None => {},
        },
        None => {},
    }
    InterpretedPayload::Empty
}

/// The bytes of the frame prefix that marks a data event.
pub open spec fn data_prefix() -> Seq<u8> {
    vstd::utf8::encode_utf8("data: "@)
}

/// The payload of a frame: the bytes after the data prefix, trimmed of
/// surrounding whitespace; frames without the prefix carry no payload.
pub open spec fn frame_payload(frame: Seq<u8>) -> Option<Seq<u8>> {
    if frame.len() >= data_prefix().len() && frame.take(data_prefix().len() as int)
        == data_prefix() {
        Some(spec_trim(frame.skip(data_prefix().len() as int)))
    } else {
        None
    }
}

/// Extract the payload of one frame, if it is a data frame.
pub fn extract_payload(frame: &[u8]) -> (r: Option<Vec<u8>>)
    ensures
        match r {
            Some(p) => frame_payload(frame@) == Some(p@),
            None => frame_payload(frame@) is None,
        },
{
    let prefix = "data: ".as_bytes();
    if starts_with(frame, prefix) {
        let rest = copy_range(frame, prefix.len(), frame.len());
        assert(rest@ =~= frame@.skip(data_prefix().len() as int));
        Some(trim_bytes(rest.as_slice()))
    } else {
        None
    }
}

} // verus!
