//! Building the outbound chat request: the JSON body with its optional
//! fields, the header set, and the endpoint URL.
//!
//! The body is serialized here, byte by byte, so that exactly the promised
//! wire payload leaves the library: optional fields that are absent or empty
//! are omitted entirely, and the language falls back to its default rather
//! than ever going out empty.
use vstd::prelude::*;

use vstd::string::StringExecFns;
use vstd::utf8::encode_utf8;

verus! {

/// One outgoing chat call, before serialization.  Optional fields that are
/// `None` — or hold an empty string — are left out of the wire payload.
pub struct ChatRequest {
    pub session_id: String,
    pub question: String,
    pub conversation_id: String,
    pub language: String,
    pub record_id: Option<String>,
    pub selected_plugin: Option<String>,
    pub selected_flow: Option<String>,
    pub flow_id: Option<String>,
}

/// An error the relay surfaces to its caller.
#[derive(Clone, Copy, PartialEq, Eq, Structural, Debug)]
pub enum RelayError {
    /// The configured base URL cannot be parsed: a configuration error,
    /// raised before any request goes out.
    BadBaseUrl,
    /// The configuration document is not the expected JSON shape.
    BadConfig,
    /// A buffered response is missing the expected field: a protocol error.
    MissingField,
}

/// The lower-case hexadecimal digit byte for a value below sixteen.
pub open spec fn hex_byte(v: u8) -> u8 {
    if v < 10 {
        (48 + v) as u8
    } else {
        (87 + v) as u8
    }
}

/// How one byte appears inside a JSON string literal: quote and backslash
/// escaped, control bytes as their short escape or `\u00..`, all other
/// bytes — including every byte of a multi-byte UTF-8 character — as
/// themselves.
pub open spec fn esc_byte(b: u8) -> Seq<u8> {
    if b == 34 {  // quote
        seq![92u8, 34u8]
    } else if b == 92 {  // backslash
        seq![92u8, 92u8]
    } else if b == 8 {
        seq![92u8, 98u8]  // \b
    } else if b == 9 {
        seq![92u8, 116u8]  // \t
    } else if b == 10 {
        seq![92u8, 110u8]  // \n
    } else if b == 12 {
        seq![92u8, 102u8]  // \f
    } else if b == 13 {
        seq![92u8, 114u8]  // \r
    } else if b < 32 {
        seq![92u8, 117u8, 48u8, 48u8, hex_byte(b / 16), hex_byte(b % 16)]  // \u00..
    } else {
        seq![b]
    }
}

/// A byte run with every byte escaped for a JSON string literal.
pub open spec fn esc_bytes(s: Seq<u8>) -> Seq<u8>
    decreases s.len(),
{
    if s.len() == 0 {
        Seq::empty()
    } else {
        esc_byte(s[0]) + esc_bytes(s.drop_first())
    }
}

/// Escaping one more byte appends its escape.
pub proof fn lemma_esc_bytes_snoc(s: Seq<u8>, x: u8)
    ensures
        esc_bytes(s.push(x)) == esc_bytes(s) + esc_byte(x),
    decreases s.len(),
{
    if s.len() == 0 {
        assert(s.push(x).drop_first() =~= Seq::<u8>::empty());
        assert(esc_bytes(Seq::<u8>::empty()) =~= Seq::<u8>::empty());
        assert(esc_byte(x) + Seq::<u8>::empty() =~= esc_byte(x));
        assert(esc_bytes(s.push(x)) =~= esc_byte(x));
        assert(esc_bytes(s) + esc_byte(x) =~= esc_byte(x));
    } else {
        assert(s.push(x)[0] == s[0]);
        assert(s.push(x).drop_first() =~= s.drop_first().push(x));
        lemma_esc_bytes_snoc(s.drop_first(), x);
        assert(esc_byte(s[0]) + (esc_bytes(s.drop_first()) + esc_byte(x)) =~= (esc_byte(s[0])
            + esc_bytes(s.drop_first())) + esc_byte(x));
    }
}

/// A text as a quoted, escaped JSON string literal, in bytes.
pub open spec fn quoted(t: Seq<char>) -> Seq<u8> {
    seq![34u8] + esc_bytes(encode_utf8(t)) + seq![34u8]
}

/// The language that goes out: the given one, or the default `zh` for an
/// empty one — the wire payload never carries an empty language.
pub open spec fn effective_language(l: Seq<char>) -> Seq<char> {
    if l.len() == 0 {
        "zh"@
    } else {
        l
    }
}

/// An optional string field's contribution to the body: nothing when the
/// value is absent or empty, else the prefix (comma, key and colon) and the
/// quoted value.
pub open spec fn opt_field(prefix: Seq<char>, v: Option<Seq<char>>) -> Seq<u8> {
    match v {
        Some(t) => if t.len() == 0 {
            Seq::empty()
        } else {
            encode_utf8(prefix) + quoted(t)
        },
        None => Seq::empty(),
    }
}

/// The plugin field's contribution: a one-element array under
/// `user_selected_plugins`, or nothing when absent or empty.
pub open spec fn opt_plugin_field(v: Option<Seq<char>>) -> Seq<u8> {
    match v {
        Some(t) => if t.len() == 0 {
            Seq::empty()
        } else {
            encode_utf8(",\"user_selected_plugins\":["@) + quoted(t) + encode_utf8("]"@)
        },
        None => Seq::empty(),
    }
}

/// The view of an optional owned string.
pub open spec fn opt_view(o: Option<String>) -> Option<Seq<char>> {
    match o {
        Some(s) => Some(s@),
        None => None,
    }
}

/// The exact JSON body of a chat call: the three identifiers and the
/// effective language always, each optional field only when present and
/// non-empty.
pub open spec fn spec_chat_body(req: ChatRequest) -> Seq<u8> {
    encode_utf8("{\"session_id\":"@) + quoted(req.session_id@) + encode_utf8(",\"question\":"@)
        + quoted(req.question@) + encode_utf8(",\"conversation_id\":"@) + quoted(
        req.conversation_id@,
    ) + encode_utf8(",\"language\":"@) + quoted(effective_language(req.language@)) + opt_field(
        ",\"record_id\":"@,
        opt_view(req.record_id),
    ) + opt_plugin_field(opt_view(req.selected_plugin)) + opt_field(
        ",\"user_selected_flow\":"@,
        opt_view(req.selected_flow),
    ) + opt_field(",\"flow_id\":"@, opt_view(req.flow_id)) + encode_utf8("}"@)
}

/// Append the UTF-8 bytes of a literal piece.
pub(crate) fn push_lit(out: &mut Vec<u8>, s: &str)
    ensures
        final(out)@ == old(out)@ + encode_utf8(s@),
{
    out.extend_from_slice(s.as_bytes());
}

/// Append one byte's JSON string escape.
fn push_escaped_byte(out: &mut Vec<u8>, b: u8)
    ensures
        final(out)@ == old(out)@ + esc_byte(b),
{
    let ghost before = out@;
    if b == 34 {
        out.push(92);
        out.push(34);
    } else if b == 92 {
        out.push(92);
        out.push(92);
    } else if b == 8 {
        out.push(92);
        out.push(98);
    } else if b == 9 {
        out.push(92);
        out.push(116);
    } else if b == 10 {
        out.push(92);
        out.push(110);
    } else if b == 12 {
        out.push(92);
        out.push(102);
    } else if b == 13 {
        out.push(92);
        out.push(114);
    } else if b < 32 {
        out.push(92);
        out.push(117);
        out.push(48);
        out.push(48);
        out.push(if b / 16 < 10 {
            48 + b / 16
        } else {
            87 + b / 16
        });
        out.push(if b % 16 < 10 {
            48 + b % 16
        } else {
            87 + b % 16
        });
    } else {
        out.push(b);
    }
    assert(out@ =~= before + esc_byte(b));
}

/// Append a text as a quoted, escaped JSON string literal.
pub(crate) fn push_quoted(out: &mut Vec<u8>, s: &str)
    ensures
        final(out)@ == old(out)@ + quoted(s@),
{
    let ghost start = out@;
    out.push(34);
    let b = s.as_bytes();
    let ghost bs = encode_utf8(s@);
    assert(b@ == bs);
    let n = b.len();
    let mut i: usize = 0;
    while i < n
        invariant
            n == b@.len(),
            b@ == bs,
            i <= n,
            out@ == start + seq![34u8] + esc_bytes(bs.take(i as int)),
        decreases n - i,
    {
        let ghost before = out@;
        push_escaped_byte(out, b[i]);
        proof {
            assert(bs.take(i as int).push(bs[i as int]) =~= bs.take(i as int + 1));
            lemma_esc_bytes_snoc(bs.take(i as int), bs[i as int]);
            assert((start + seq![34u8] + esc_bytes(bs.take(i as int))) + esc_byte(bs[i as int])
                =~= start + seq![34u8] + (esc_bytes(bs.take(i as int)) + esc_byte(bs[i as int])));
        }
        i = i + 1;
    }
    assert(bs.take(n as int) =~= bs);
    out.push(34);
    assert(out@ =~= start + quoted(s@));
}

/// Serialize a chat request to its exact JSON body.
#[verifier::rlimit(60)]
pub fn chat_body(req: &ChatRequest) -> (r: Vec<u8>)
    ensures
        r@ == spec_chat_body(*req),
{
    let mut out: Vec<u8> = Vec::new();
    assert(out@ =~= Seq::<u8>::empty());
    push_lit(&mut out, "{\"session_id\":");
    push_quoted(&mut out, self_str(&req.session_id));
    push_lit(&mut out, ",\"question\":");
    push_quoted(&mut out, self_str(&req.question));
    push_lit(&mut out, ",\"conversation_id\":");
    push_quoted(&mut out, self_str(&req.conversation_id));
    push_lit(&mut out, ",\"language\":");
    if req.language.as_str().is_empty() {
        push_quoted(&mut out, "zh");
    } else {
        push_quoted(&mut out, self_str(&req.language));
    }
    let ghost with_required = encode_utf8("{\"session_id\":"@) + quoted(req.session_id@) + encode_utf8(
        ",\"question\":"@,
    ) + quoted(req.question@) + encode_utf8(",\"conversation_id\":"@) + quoted(
        req.conversation_id@,
    ) + encode_utf8(",\"language\":"@) + quoted(effective_language(req.language@));
    assert(out@ =~= with_required);
    match &req.record_id {
        Some(v) => if !v.as_str().is_empty() {
            push_lit(&mut out, ",\"record_id\":");
            push_quoted(&mut out, self_str(v));
        },
        None => {},
    }
    let ghost with_record = with_required + opt_field(",\"record_id\":"@, opt_view(req.record_id));
    assert(out@ =~= with_record);
    match &req.selected_plugin {
        Some(v) => if !v.as_str().is_empty() {
            push_lit(&mut out, ",\"user_selected_plugins\":[");
            push_quoted(&mut out, self_str(v));
            push_lit(&mut out, "]");
        },
        None => {},
    }
    let ghost with_plugin = with_record + opt_plugin_field(opt_view(req.selected_plugin));
    assert(out@ =~= with_plugin);
    match &req.selected_flow {
        Some(v) => if !v.as_str().is_empty() {
            push_lit(&mut out, ",\"user_selected_flow\":");
            push_quoted(&mut out, self_str(v));
        },
        None => {},
    }
    let ghost with_flow = with_plugin + opt_field(",\"user_selected_flow\":"@, opt_view(req.selected_flow));
    assert(out@ =~= with_flow);
    match &req.flow_id {
        Some(v) => if !v.as_str().is_empty() {
            push_lit(&mut out, ",\"flow_id\":");
            push_quoted(&mut out, self_str(v));
        },
        None => {},
    }
    let ghost with_flow_id = with_flow + opt_field(",\"flow_id\":"@, opt_view(req.flow_id));
    assert(out@ =~= with_flow_id);
    push_lit(&mut out, "}");
    assert(out@ =~= spec_chat_body(*req));
    out
}

/// Borrow a string's text.
fn self_str(s: &String) -> (r: &str)
    ensures
        r@ == s@,
{
    s.as_str()
}

/// The header set every backend call carries: content type, keep-alive, and
/// the bearer authorization; the streaming call adds the SSE accept header.
pub fn base_headers(api_key: &str, sse: bool) -> (r: Vec<(String, String)>)
    ensures
        r@.len() == (if sse {
            4int
        } else {
            3int
        }),
        r@[0].0@ == "Content-Type"@ && r@[0].1@ == "application/json; charset=UTF-8"@,
        r@[1].0@ == "Connection"@ && r@[1].1@ == "keep-alive"@,
        r@[2].0@ == "Authorization"@ && r@[2].1@ == "Bearer "@ + api_key@,
        sse ==> r@[3].0@ == "Accept"@ && r@[3].1@ == "text/event-stream"@,
{
    let mut r: Vec<(String, String)> = Vec::new();
    r.push(("Content-Type".to_owned(), "application/json; charset=UTF-8".to_owned()));
    r.push(("Connection".to_owned(), "keep-alive".to_owned()));
    let mut auth: String = "Bearer ".to_owned();
    auth.append(api_key);
    r.push(("Authorization".to_owned(), auth));
    if sse {
        r.push(("Accept".to_owned(), "text/event-stream".to_owned()));
    }
    r
}

/// A backend endpoint under the configured base URL.
#[derive(Clone, Copy, PartialEq, Eq, Structural, Debug)]
pub enum Endpoint {
    Chat,
    Conversation,
    Session,
    Stop,
    Plugin,
}

/// The fixed path of each endpoint.
pub open spec fn endpoint_path(e: Endpoint) -> Seq<char> {
    match e {
        Endpoint::Chat => "api/client/chat"@,
        Endpoint::Conversation => "api/client/conversation"@,
        Endpoint::Session => "api/client/session"@,
        Endpoint::Stop => "api/client/stop"@,
        Endpoint::Plugin => "api/client/plugin"@,
    }
}

/// The fixed path of each endpoint, at run time.
fn endpoint_path_str(e: Endpoint) -> (r: &'static str)
    ensures
        r@ == endpoint_path(e),
{
    match e {
        Endpoint::Chat => "api/client/chat",
        Endpoint::Conversation => "api/client/conversation",
        Endpoint::Session => "api/client/session",
        Endpoint::Stop => "api/client/stop",
        Endpoint::Plugin => "api/client/plugin",
    }
}

/// What joining a base URL with a path yields: the resolved URL text, or
/// nothing when the base does not parse as a URL.
pub uninterp spec fn url_with_path(base: Seq<char>, path: Seq<char>) -> Option<Seq<char>>;

/// Relies on url::Url::parse, Url::set_path and Url::as_str: the base
/// parsed, its path replaced, and the result printed — a function of the two
/// texts alone, failing exactly when the base is no URL.
#[verifier::external_body]
fn resolve_url(base: &str, path: &str) -> (r: Option<String>)
    ensures
        match r {
            Some(u) => url_with_path(base@, path@) == Some(u@),
            None => url_with_path(base@, path@) is None,
        },
{
    match url::Url::parse(base) {
        Ok(mut u) => {
            u.set_path(path);
            Some(u.as_str().to_owned())
        },
        Err(_) => None,
    }
}

/// The full URL of a backend endpoint under the given base, or the
/// configuration error for a malformed base — raised before any request
/// goes out.
pub fn endpoint_url(base: &str, e: Endpoint) -> (r: Result<String, RelayError>)
    ensures
        match r {
            Ok(u) => url_with_path(base@, endpoint_path(e)) == Some(u@),
            Err(err) => url_with_path(base@, endpoint_path(e)) is None && err
                == RelayError::BadBaseUrl,
        },
{
    match resolve_url(base, endpoint_path_str(e)) {
        Some(u) => Ok(u),
        None => Err(RelayError::BadBaseUrl),
    }
}

} // verus!
