//! Settings and request shapes of the daemon's front-ends.

use vstd::prelude::*;

use crate::text::{eq_ignore_ascii_case, eq_ignore_ascii_case_seq, owned, str_eq, trim, trim_end_char,
    trim_end_char_seq, trim_seq};

verus! {

/// An on/off setting reads as on: after trimming it is `1`, `true`, `yes` or `on`, or
/// `true` in any ASCII case.
pub open spec fn truthy(v: Seq<char>) -> bool {
    let t = trim_seq(v);
    t == "1"@ || t == "true"@ || t == "yes"@ || t == "on"@ || eq_ignore_ascii_case_seq(t, "true"@)
}

/// Whether an on/off setting reads as on.
pub fn is_truthy(v: &str) -> (b: bool)
    ensures
        b == truthy(v@),
{
    let t = trim(v);
    let s = t.as_str();
    str_eq(s, "1") || str_eq(s, "true") || str_eq(s, "yes") || str_eq(s, "on") || eq_ignore_ascii_case(s, "true")
}

/// The body of a turn request over HTTP.
#[derive(Debug, Clone)]
pub struct TurnRequest {
    pub session_id: String,
    pub agent_id: String,
    pub message: String,
    pub allowed_tool_names: Vec<String>,
}

/// The body of a turn response over HTTP.
#[derive(Debug, Clone)]
pub struct TurnResponse {
    pub output: String,
}

/// The message `-` stands for "read the message from standard input".
pub fn reads_stdin(message: &str) -> (b: bool)
    ensures
        b == (message@ == "-"@),
{
    str_eq(message, "-")
}

/// The health endpoint under a base URL (trailing slashes of the base dropped).
pub fn health_url(http_url: &str) -> (u: String)
    ensures
        u@ == trim_end_char_seq(http_url@, '/') + "/health"@,
{
    let mut u = trim_end_char(http_url, '/');
    u.append("/health");
    u
}

} // verus!
