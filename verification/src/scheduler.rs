//! Cron-style schedules: parsing an expression (six fields, seconds first) and how
//! long to wait for the next firing.

use vstd::prelude::*;

use crate::errors::AgentError;
use crate::text::owned;

verus! {

/// `cron::Schedule`, carried opaquely.
#[verifier::external_type_specification]
#[verifier::external_body]
pub struct ExCronSchedule(cron::Schedule);

/// `cron::error::Error`, carried opaquely.
#[verifier::external_type_specification]
#[verifier::external_body]
pub struct ExCronError(cron::error::Error);

/// Whether `cron::Schedule::from_str` accepts the expression.
pub uninterp spec fn cron_expression_parses(expr: Seq<char>) -> bool;

/// The text `{:?}` writes for a string (quoted and escaped).
pub uninterp spec fn debug_string(s: Seq<char>) -> Seq<char>;

/// Calls `<cron::Schedule as FromStr>::from_str`. Claimed: it succeeds exactly on the
/// expressions named by `cron_expression_parses` (parsing depends on the text alone).
#[verifier::external_body]
fn cron_from_str(expr: &str) -> (r: Result<cron::Schedule, cron::error::Error>)
    ensures
        r is Ok == cron_expression_parses(expr@),
{
    <cron::Schedule as std::str::FromStr>::from_str(expr)
}

/// Calls `Display::fmt` of `cron::error::Error` through `to_string`. Nothing is claimed
/// of the text, which describes the error value.
#[verifier::external_body]
fn cron_error_text(e: &cron::error::Error) -> (t: String) {
    e.to_string()
}

/// Calls `<str as Debug>::fmt` through `format!("{:?}")`. Claimed: the text is
/// `debug_string` of the string (it depends on the string alone).
#[verifier::external_body]
pub(crate) fn debug_str_text(s: &str) -> (t: String)
    ensures
        t@ == debug_string(s@),
{
    format!("{:?}", s)
}

/// Parse a cron expression, e.g. `0 */10 * * * *`. An expression the parser refuses
/// gives the error `invalid cron <expression, quoted>: <parser message>`.
pub fn parse_schedule(cron_expr: &str) -> (r: Result<cron::Schedule, AgentError>)
    ensures
        r is Ok == cron_expression_parses(cron_expr@),
        r matches Err(e) ==> exists|m: Seq<char>| e.message() == "invalid cron "@ + debug_string(cron_expr@) + ": "@ + m,
{
    match cron_from_str(cron_expr) {
        Ok(s) => Ok(s),
        Err(e) => {
            let et = cron_error_text(&e);
            Err(schedule_error(cron_expr, et.as_str()))
        },
    }
}

/// The error for an expression the cron parser refuses with `parser_message`:
/// `invalid cron <expression, quoted>: <parser message>`.
pub fn schedule_error(cron_expr: &str, parser_message: &str) -> (e: AgentError)
    ensures
        e.message() == "invalid cron "@ + debug_string(cron_expr@) + ": "@ + parser_message@,
{
    let mut m = owned("invalid cron ");
    let q = debug_str_text(cron_expr);
    m.append(q.as_str());
    m.append(": ");
    m.append(parser_message);
    AgentError::msg(m.as_str())
}

/// Nanoseconds to wait until the next firing at `next_ns` from `now_ns` (both since
/// the epoch); a firing already past waits 200 ms.
pub fn wait_nanos(next_ns: i64, now_ns: i64) -> (w: u64)
    ensures
        next_ns < now_ns ==> w == 200_000_000,
        next_ns >= now_ns ==> w == next_ns - now_ns,
{
    if next_ns < now_ns {
        200_000_000
    } else {
        let d: i128 = next_ns as i128 - now_ns as i128;
        d as u64
    }
}

} // verus!
