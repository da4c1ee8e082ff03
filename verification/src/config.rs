//! The on-disk configuration: base URL and API key.
//!
//! The document lives at a fixed path under the user's home directory and is
//! read on every use.  Reading and writing the file is the caller's job;
//! this module knows the path, the defaults, and the exact document shape —
//! a malformed document is an error surfaced to whoever asked, never a
//! silent fallback to the defaults.
use vstd::prelude::*;

use vstd::string::StringExecFns;
use vstd::utf8::encode_utf8;

use crate::json::{json_of, obj_lookup, JsonModel};
use crate::json::{as_text, get_key, parse_json};
use crate::request::{quoted, RelayError};

verus! {

/// The configuration document: where the backend lives and the key that
/// authorizes calls to it.
#[derive(Debug)]
pub struct Config {
    pub framework_url: String,
    pub framework_api_key: String,
}

impl Config {
    /// The built-in defaults, used when no document exists yet.
    pub fn default() -> (c: Config)
        ensures
            c.framework_url@ == "https://eulercopilot.gitee.com"@,
            c.framework_api_key@ == Seq::<char>::empty(),
    {
        let key = String::new();
        assert(key@ =~= Seq::<char>::empty());
        Config { framework_url: "https://eulercopilot.gitee.com".to_owned(), framework_api_key: key }
    }

    /// The document's path: a fixed location under the user's home
    /// directory, or nothing on a system without one.
    pub fn config_file() -> (r: Option<String>)
        ensures
            r matches Some(p) ==> (exists|h: Seq<char>|
                p@ == h + "/.config/eulercopilot/desktop.json"@),
    {
        match home_dir_string() {
            Some(home) => {
                let ghost h = home@;
                let mut p = home;
                p.append("/.config/eulercopilot/desktop.json");
                assert(p@ == h + "/.config/eulercopilot/desktop.json"@);
                Some(p)
            },
            None => None,
        }
    }
}

/// Relies on dirs::home_dir: the user's home directory, if the platform
/// reports one; it depends on the environment, so nothing is promised of it.
#[verifier::external_body]
fn home_dir_string() -> (r: Option<String>) {
    dirs::home_dir().map(|p| p.to_string_lossy().into_owned())
}

/// The two fields of a well-formed configuration document.
pub open spec fn spec_config_of(s: Seq<char>) -> Option<(Seq<char>, Seq<char>)> {
    match json_of(s) {
        Some(JsonModel::Object(pairs)) => match (
            obj_lookup(pairs, "framework_url"@),
            obj_lookup(pairs, "framework_api_key"@),
        ) {
            (Some(JsonModel::Text(u)), Some(JsonModel::Text(k))) => Some((u, k)),
            _ => None,
        },
        _ => None,
    }
}

/// Parse a configuration document.  Anything but an object carrying both
/// string fields is the configuration error, surfaced to the caller.
pub fn parse_config(s: &str) -> (r: Result<Config, RelayError>)
    ensures
        match r {
            Ok(c) => spec_config_of(s@) == Some((c.framework_url@, c.framework_api_key@)),
            Err(e) => spec_config_of(s@) is None && e == RelayError::BadConfig,
        },
{
    match parse_json(s) {
        None => Err(RelayError::BadConfig),
        Some(v) => {
            let url = match get_key(&v, "framework_url") {
                Some(u) => match as_text(u) {
                    Some(t) => t.to_owned(),
                    None => {
                        return Err(RelayError::BadConfig);
                    },
                },
                None => {
                    return Err(RelayError::BadConfig);
                },
            };
            match get_key(&v, "framework_api_key") {
                Some(k) => match as_text(k) {
                    Some(t) => Ok(Config { framework_url: url, framework_api_key: t.to_owned() }),
                    None => Err(RelayError::BadConfig),
                },
                None => Err(RelayError::BadConfig),
            }
        },
    }
}

/// The exact document a configuration serializes to.
pub open spec fn spec_config_json(c: Config) -> Seq<u8> {
    encode_utf8("{\"framework_url\":"@) + quoted(c.framework_url@) + encode_utf8(
        ",\"framework_api_key\":"@,
    ) + quoted(c.framework_api_key@) + encode_utf8("}"@)
}

/// Serialize a configuration for saving.
pub fn config_json(c: &Config) -> (r: Vec<u8>)
    ensures
        r@ == spec_config_json(*c),
{
    let mut out: Vec<u8> = Vec::new();
    assert(out@ =~= Seq::<u8>::empty());
    crate::request::push_lit(&mut out, "{\"framework_url\":");
    crate::request::push_quoted(&mut out, c.framework_url.as_str());
    crate::request::push_lit(&mut out, ",\"framework_api_key\":");
    crate::request::push_quoted(&mut out, c.framework_api_key.as_str());
    crate::request::push_lit(&mut out, "}");
    assert(out@ =~= spec_config_json(*c));
    out
}

} // verus!
