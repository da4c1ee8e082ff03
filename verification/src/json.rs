//! A mathematical model of JSON values, and trusted access to serde_json.
//!
//! Payloads and buffered responses arrive as JSON text.  serde_json does the
//! parsing and printing; the library reasons about both through `JsonModel`,
//! an abstract JSON tree, and two uninterpreted functions that tie a parsed
//! `serde_json::Value` and its source text to that tree.
use vstd::prelude::*;

verus! {

/// An abstract JSON value: the model of a parsed `serde_json::Value`.
///
/// A number is carried as the text serde_json prints for it; an object's
/// pairs are listed in the order serde_json's map iterates them (sorted by
/// key), so that printing the model is printing the value.
pub enum JsonModel {
    Null,
    Boolean(bool),
    Number(Seq<char>),
    Text(Seq<char>),
    Array(Seq<JsonModel>),
    Object(Seq<(Seq<char>, JsonModel)>),
}

/// The value under `key` in an object's pair list, if present.
pub open spec fn obj_lookup(pairs: Seq<(Seq<char>, JsonModel)>, key: Seq<char>) -> Option<
    JsonModel,
>
    decreases pairs.len(),
{
    if pairs.len() == 0 {
        None
    } else if pairs[0].0 == key {
        Some(pairs[0].1)
    } else {
        obj_lookup(pairs.drop_first(), key)
    }
}

/// The lower-case hexadecimal digit for a value below sixteen.
pub open spec fn hex_digit(v: u32) -> char {
    if v == 0 {
        '0'
    } else if v == 1 {
        '1'
    } else if v == 2 {
        '2'
    } else if v == 3 {
        '3'
    } else if v == 4 {
        '4'
    } else if v == 5 {
        '5'
    } else if v == 6 {
        '6'
    } else if v == 7 {
        '7'
    } else if v == 8 {
        '8'
    } else if v == 9 {
        '9'
    } else if v == 10 {
        'a'
    } else if v == 11 {
        'b'
    } else if v == 12 {
        'c'
    } else if v == 13 {
        'd'
    } else if v == 14 {
        'e'
    } else {
        'f'
    }
}

/// How one character appears inside a JSON string literal: quote and
/// backslash are escaped, control characters get their short escape or a
/// `\u00..` escape, and everything else stands as itself.
pub open spec fn esc_char(c: char) -> Seq<char> {
    if c == '"' {
        seq!['\\', '"']
    } else if c == '\\' {
        seq!['\\', '\\']
    } else if c == '\u{8}' {
        seq!['\\', 'b']
    } else if c == '\t' {
        seq!['\\', 't']
    } else if c == '\n' {
        seq!['\\', 'n']
    } else if c == '\u{c}' {
        seq!['\\', 'f']
    } else if c == '\r' {
        seq!['\\', 'r']
    } else if (c as u32) < 32 {
        seq!['\\', 'u', '0', '0', hex_digit((c as u32) / 16), hex_digit((c as u32) % 16)]
    } else {
        seq![c]
    }
}

/// A text with every character escaped for a JSON string literal.
pub open spec fn escape_chars(s: Seq<char>) -> Seq<char>
    decreases s.len(),
{
    if s.len() == 0 {
        Seq::empty()
    } else {
        esc_char(s[0]) + escape_chars(s.drop_first())
    }
}

/// The compact JSON text of a model value, exactly as serde_json prints it:
/// no whitespace, strings escaped per `esc_char`.
pub open spec fn spec_json_text(j: JsonModel) -> Seq<char>
    decreases j, 0nat,
{
    match j {
        JsonModel::Null => "null"@,
        JsonModel::Boolean(b) => if b {
            "true"@
        } else {
            "false"@
        },
        JsonModel::Number(t) => t,
        JsonModel::Text(t) => seq!['"'] + escape_chars(t) + seq!['"'],
        JsonModel::Array(items) => seq!['['] + json_items_text(items, 0) + seq![']'],
        JsonModel::Object(pairs) => seq!['{'] + json_pairs_text(pairs, 0) + seq!['}'],
    }
}

/// The comma-separated texts of an array's items from index `i` on.
pub open spec fn json_items_text(items: Seq<JsonModel>, i: int) -> Seq<char>
    decreases items, items.len() - i, 1nat,
{
    if i < 0 || i >= items.len() {
        Seq::empty()
    } else {
        let head = spec_json_text(items[i]);
        if i + 1 < items.len() {
            head + seq![','] + json_items_text(items, i + 1)
        } else {
            head
        }
    }
}

/// The comma-separated `"key":value` texts of an object's pairs from index
/// `i` on.
pub open spec fn json_pairs_text(pairs: Seq<(Seq<char>, JsonModel)>, i: int) -> Seq<char>
    decreases pairs, pairs.len() - i, 1nat,
{
    if i < 0 || i >= pairs.len() {
        Seq::empty()
    } else {
        let head = seq!['"'] + escape_chars(pairs[i].0) + seq!['"', ':'] + spec_json_text(
            pairs[i].1,
        );
        if i + 1 < pairs.len() {
            head + seq![','] + json_pairs_text(pairs, i + 1)
        } else {
            head
        }
    }
}

#[verifier::external_type_specification]
#[verifier::external_body]
pub struct ExValue(serde_json::Value);

/// The model of a parsed JSON value.
pub uninterp spec fn json_model(v: serde_json::Value) -> JsonModel;

/// What parsing a text as JSON yields: the model of the resulting value, or
/// nothing when the text is not valid JSON.
pub uninterp spec fn json_of(s: Seq<char>) -> Option<JsonModel>;

/// Relies on serde_json::from_str::<Value>: returns the parsed value exactly
/// when the text is valid JSON.
#[verifier::external_body]
pub fn parse_json(s: &str) -> (r: Option<serde_json::Value>)
    ensures
        match r {
            Some(v) => json_of(s@) == Some(json_model(v)),
            None => json_of(s@) is None,
        },
{
    serde_json::from_str::<serde_json::Value>(s).ok()
}

/// Relies on serde_json::Value::get: on an object, looks the key up; on any
/// other value it returns nothing.
#[verifier::external_body]
pub fn get_key<'a>(v: &'a serde_json::Value, key: &str) -> (r: Option<&'a serde_json::Value>)
    ensures
        match json_model(*v) {
            JsonModel::Object(pairs) => match r {
                Some(w) => obj_lookup(pairs, key@) == Some(json_model(*w)),
                None => obj_lookup(pairs, key@) is None,
            },
            _ => r is None,
        },
{
    v.get(key)
}

/// Relies on serde_json::Value::as_str: the borrowed text of a string value,
/// nothing for any other value.
#[verifier::external_body]
pub fn as_text<'a>(v: &'a serde_json::Value) -> (r: Option<&'a str>)
    ensures
        match json_model(*v) {
            JsonModel::Text(t) => r matches Some(s) && s@ == t,
            _ => r is None,
        },
{
    v.as_str()
}

/// Relies on serde_json::to_string: prints a value compactly, as
/// `spec_json_text` describes; printing a `Value`, whose maps have string
/// keys, cannot fail.
#[verifier::external_body]
pub fn to_json_text(v: &serde_json::Value) -> (r: String)
    ensures
        r@ == spec_json_text(json_model(*v)),
{
    serde_json::to_string(v).unwrap_or_default()
}

} // verus!
