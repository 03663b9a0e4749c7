//! JSON at the edges of the tool protocol: tool arguments are parsed with
//! `serde_json` into its `Value`, which the library carries to the tools
//! without looking inside it.

use vstd::prelude::*;

use crate::errors::AgentError;
use crate::text::{owned, trim, trim_seq};

verus! {

/// `serde_json::Value`, carried opaquely.
#[verifier::external_type_specification]
#[verifier::external_body]
pub struct ExJsonValue(serde_json::Value);

/// `serde_json::Error`, carried opaquely.
#[verifier::external_type_specification]
#[verifier::external_body]
pub struct ExJsonError(serde_json::Error);

/// What `serde_json::from_str::<serde_json::Value>` gives for the text: the parsed
/// value, or nothing when it refuses the text.
pub uninterp spec fn json_parsed(text: Seq<char>) -> Option<serde_json::Value>;

/// Whether `serde_json::from_str::<serde_json::Value>` accepts the text.
pub open spec fn json_text_parses(text: Seq<char>) -> bool {
    json_parsed(text) is Some
}

/// Calls `serde_json::from_str::<serde_json::Value>`. Claimed: it succeeds exactly when
/// `json_parsed` names a value for the text, and then returns that value (parsing
/// depends on the text alone).
#[verifier::external_body]
fn json_from_str(text: &str) -> (r: Result<serde_json::Value, serde_json::Error>)
    ensures
        r is Ok == json_parsed(text@) is Some,
        r matches Ok(v) ==> json_parsed(text@) == Some(v),
{
    serde_json::from_str::<serde_json::Value>(text)
}

/// Calls `serde_json::Map::new` and wraps it as `serde_json::Value::Object`: an empty
/// JSON object. Claimed: it is the value `serde_json::from_str` parses from `{}`.
#[verifier::external_body]
pub(crate) fn json_empty_object() -> (v: serde_json::Value)
    ensures
        json_parsed("{}"@) == Some(v),
{
    serde_json::Value::Object(serde_json::Map::new())
}

/// Calls `Display::fmt` of `serde_json::Error` through `to_string`. Nothing is claimed of
/// the text, which describes the error value.
#[verifier::external_body]
fn json_error_text(e: &serde_json::Error) -> (t: String) {
    e.to_string()
}

/// The text `serde_json::to_string` writes for the JSON object with the string `name`
/// under `name`, the string `description` under `description`, and the value the text
/// `parameters` parses to under `parameters`.
pub uninterp spec fn json_tool_object(name: Seq<char>, description: Seq<char>, parameters: Seq<char>) -> Seq<char>;

/// Parses `parameters` with `serde_json::from_str::<serde_json::Value>`, puts it with the
/// two strings into a `serde_json::Map` under the keys `name`, `description` and
/// `parameters`, and calls `serde_json::to_string` on the object. Claimed: it succeeds
/// exactly when the parameter text parses (writing a `Value` into a `Vec<u8>` cannot
/// fail), and the text is the one `json_tool_object` names (it depends on the three
/// texts alone).
#[verifier::external_body]
pub(crate) fn json_tool_object_text(name: &str, description: &str, parameters: &str) -> (r: Result<String, serde_json::Error>)
    ensures
        r is Ok == json_text_parses(parameters@),
        r matches Ok(t) ==> t@ == json_tool_object(name@, description@, parameters@),
{
    let schema = serde_json::from_str::<serde_json::Value>(parameters)?;
    let mut map = serde_json::Map::new();
    map.insert(String::from("name"), serde_json::Value::String(String::from(name)));
    map.insert(String::from("description"), serde_json::Value::String(String::from(description)));
    map.insert(String::from("parameters"), schema);
    serde_json::to_string(&serde_json::Value::Object(map))
}

/// The text `serde_json::to_string` writes for the JSON object whose keys map to the
/// given strings.
pub uninterp spec fn json_string_object(entries: Seq<(Seq<char>, Seq<char>)>) -> Seq<char>;

/// Calls `serde_json::to_string` on the `serde_json::Value::Object` whose keys map to the
/// given strings. Claimed: it succeeds (serializing strings into a `Vec<u8>` cannot fail),
/// and the text is the one named by `json_string_object` (it depends on the entries alone).
#[verifier::external_body]
pub(crate) fn json_string_object_text(entries: &[(String, String)]) -> (r: Result<String, serde_json::Error>)
    ensures
        r is Ok,
        r matches Ok(t) ==> t@ == json_string_object(entries.deep_view()),
{
    let map: serde_json::Map<String, serde_json::Value> = entries
        .iter()
        .map(|(k, v)| (k.clone(), serde_json::Value::String(v.clone())))
        .collect();
    serde_json::to_string(&serde_json::Value::Object(map))
}

/// The string at `key` in the JSON object the text parses to (nothing when the text does
/// not parse to an object holding a string there).
pub uninterp spec fn json_str_field(args_json: Seq<char>, key: Seq<char>) -> Option<Seq<char>>;

/// The integer at `key` in the JSON object the text parses to, as a `u64` when it is one.
pub uninterp spec fn json_u64_field(args_json: Seq<char>, key: Seq<char>) -> Option<u64>;

/// The integer at `key` in the JSON object the text parses to, as an `i64` when it is one.
pub uninterp spec fn json_i64_field(args_json: Seq<char>, key: Seq<char>) -> Option<i64>;

/// An optional string as plain text.
pub open spec fn opt_text(o: Option<String>) -> Option<Seq<char>> {
    match o {
        Some(s) => Some(s@),
        None => None,
    }
}

/// Parses the text with `serde_json::from_str::<serde_json::Value>`, then reads the field
/// with `Value::get` and `Value::as_str`. Claimed: the result is the one `json_str_field`
/// names (it depends on the text and the key alone).
#[verifier::external_body]
pub(crate) fn read_str_field(args_json: &str, key: &str) -> (r: Option<String>)
    ensures
        opt_text(r) == json_str_field(args_json@, key@),
{
    match serde_json::from_str::<serde_json::Value>(args_json) {
        Ok(v) => v.get(key).and_then(serde_json::Value::as_str).map(String::from),
        Err(_) => None,
    }
}

/// Parses the text with `serde_json::from_str::<serde_json::Value>`, then reads the field
/// with `Value::get` and `Value::as_u64`. Claimed: the result is the one `json_u64_field`
/// names (it depends on the text and the key alone).
#[verifier::external_body]
pub(crate) fn read_u64_field(args_json: &str, key: &str) -> (r: Option<u64>)
    ensures
        r == json_u64_field(args_json@, key@),
{
    match serde_json::from_str::<serde_json::Value>(args_json) {
        Ok(v) => v.get(key).and_then(serde_json::Value::as_u64),
        Err(_) => None,
    }
}

/// Parses the text with `serde_json::from_str::<serde_json::Value>`, then reads the field
/// with `Value::get` and `Value::as_i64`. Claimed: the result is the one `json_i64_field`
/// names (it depends on the text and the key alone).
#[verifier::external_body]
pub(crate) fn read_i64_field(args_json: &str, key: &str) -> (r: Option<i64>)
    ensures
        r == json_i64_field(args_json@, key@),
{
    match serde_json::from_str::<serde_json::Value>(args_json) {
        Ok(v) => v.get(key).and_then(serde_json::Value::as_i64),
        Err(_) => None,
    }
}

/// The value a tool call's argument text stands for: an empty object for blank text,
/// else the value parsed from the text.
pub open spec fn tool_arguments(arguments_json: Seq<char>) -> serde_json::Value {
    if trim_seq(arguments_json).len() == 0 {
        json_parsed("{}"@)->Some_0
    } else {
        json_parsed(arguments_json)->Some_0
    }
}

/// Parse `arguments_json` into a JSON value for tool dispatch. Blank text stands for
/// an empty object; other text must be valid JSON, else the error
/// `invalid tool JSON: <parser message>`.
pub fn parse_tool_arguments(json_str: &str) -> (r: Result<serde_json::Value, AgentError>)
    ensures
        trim_seq(json_str@).len() == 0 ==> (r matches Ok(v) && json_parsed("{}"@) == Some(v)),
        trim_seq(json_str@).len() != 0 ==> (r is Ok <==> json_text_parses(json_str@)),
        trim_seq(json_str@).len() != 0 ==> (r matches Ok(v) ==> json_parsed(json_str@) == Some(v)),
        r matches Ok(v) ==> v == tool_arguments(json_str@),
        r matches Err(e) ==> exists|m: Seq<char>| e.message() == "invalid tool JSON: "@ + m,
{
    let t = trim(json_str);
    if t.as_str().is_empty() {
        return Ok(json_empty_object());
    }
    match json_from_str(json_str) {
        Ok(v) => Ok(v),
        Err(e) => {
            let et = json_error_text(&e);
            Err(tool_json_error(et.as_str()))
        },
    }
}

/// The error for tool arguments the JSON parser refuses with `parser_message`:
/// `invalid tool JSON: <parser message>`.
pub fn tool_json_error(parser_message: &str) -> (e: AgentError)
    ensures
        e.message() == "invalid tool JSON: "@ + parser_message@,
{
    let mut m = owned("invalid tool JSON: ");
    m.append(parser_message);
    AgentError::msg(m.as_str())
}

} // verus!
