//! Background jobs requested through the `background_job` tool: how many may run at
//! once, and how a tool call's arguments become a job.

use vstd::prelude::*;

use crate::errors::AgentError;
use crate::json::{json_i64_field, json_str_field, json_u64_field, read_i64_field, read_str_field, read_u64_field};
use crate::text::{decimal, decimal_string, owned, str_eq};

verus! {

/// How many background jobs may run at once for a configured limit: at least one.
pub fn hub_permits(max_concurrent: usize) -> (n: usize)
    ensures
        n == (if max_concurrent < 1 { 1 } else { max_concurrent }),
{
    if max_concurrent < 1 {
        1
    } else {
        max_concurrent
    }
}

/// A queued `sleep_log` job: wait `seconds`, then log `message`.
#[derive(Debug, Clone)]
pub struct BackgroundJob {
    pub seconds: u64,
    pub message: String,
}

/// The seconds a `sleep_log` job waits: the unsigned value, else a signed value
/// clamped at 0, else 0; at most 600.
pub open spec fn job_seconds(as_unsigned: Option<u64>, as_signed: Option<i64>) -> u64 {
    let base: u64 = match as_unsigned {
        Some(u) => u,
        None => match as_signed {
            Some(i) => if i < 0 { 0 } else { i as u64 },
            None => 0,
        },
    };
    if base > 600 { 600 } else { base }
}

/// An optional string slice as plain text.
pub open spec fn opt_str(o: Option<&str>) -> Option<Seq<char>> {
    match o {
        Some(s) => Some(s@),
        None => None,
    }
}

/// What a `background_job` call with these arguments comes to: the seconds and the
/// message of the job, or the error message.
pub open spec fn background_plan(
    op: Option<Seq<char>>,
    seconds_unsigned: Option<u64>,
    seconds_signed: Option<i64>,
    message: Option<Seq<char>>,
) -> Result<(u64, Seq<char>), Seq<char>> {
    match op {
        None => Err("missing op"@),
        Some(o) => if o == "sleep_log"@ {
            Ok(
                (
                    job_seconds(seconds_unsigned, seconds_signed),
                    match message {
                        Some(m) => m,
                        None => "background_job"@,
                    },
                ),
            )
        } else {
            Err("unknown op: "@ + o)
        },
    }
}

/// A planned job as plain values: its seconds and message, or the error message.
pub open spec fn job_outcome(r: Result<BackgroundJob, AgentError>) -> Result<(u64, Seq<char>), Seq<char>> {
    match r {
        Ok(j) => Ok((j.seconds, j.message@)),
        Err(e) => Err(e.message()),
    }
}

/// Turn the arguments of a `background_job` call into a job. `op` must be present and
/// be `sleep_log`; `seconds` is read as an unsigned, else a signed integer; `message`
/// defaults to `background_job`.
pub fn plan_background_job(
    op: Option<&str>,
    seconds_unsigned: Option<u64>,
    seconds_signed: Option<i64>,
    message: Option<&str>,
) -> (r: Result<BackgroundJob, AgentError>)
    ensures
        op is None ==> (r matches Err(e) && e.message() == "missing op"@),
        op is Some && op->0@ != "sleep_log"@ ==> (r matches Err(e) && e.message() == "unknown op: "@ + op->0@),
        op is Some && op->0@ == "sleep_log"@ ==> (r matches Ok(j) && j.seconds == job_seconds(
            seconds_unsigned,
            seconds_signed,
        ) && j.message@ == (match message {
            Some(m) => m@,
            None => "background_job"@,
        })),
        job_outcome(r) == background_plan(opt_str(op), seconds_unsigned, seconds_signed, opt_str(message)),
{
    let o = match op {
        None => {
            return Err(AgentError::msg("missing op"));
        },
        Some(o) => o,
    };
    if !str_eq(o, "sleep_log") {
        let mut m = owned("unknown op: ");
        m.append(o);
        return Err(AgentError::msg(m.as_str()));
    }
    let base: u64 = match seconds_unsigned {
        Some(u) => u,
        None => match seconds_signed {
            Some(i) => if i < 0 {
                0
            } else {
                i as u64
            },
            None => 0,
        },
    };
    let seconds = if base > 600 { 600 } else { base };
    let message = match message {
        Some(m) => owned(m),
        None => owned("background_job"),
    };
    Ok(BackgroundJob { seconds, message })
}

/// Turn the argument text of a `background_job` call into a job: `op`, `seconds` and
/// `message` are read from the JSON object the text holds and planned as
/// [`plan_background_job`] does.
pub fn plan_background_call(args_json: &str) -> (r: Result<BackgroundJob, AgentError>)
    ensures
        job_outcome(r) == background_plan(
            json_str_field(args_json@, "op"@),
            json_u64_field(args_json@, "seconds"@),
            json_i64_field(args_json@, "seconds"@),
            json_str_field(args_json@, "message"@),
        ),
{
    let op = read_str_field(args_json, "op");
    let seconds_unsigned = read_u64_field(args_json, "seconds");
    let seconds_signed = read_i64_field(args_json, "seconds");
    let message = read_str_field(args_json, "message");
    let op_ref: Option<&str> = match &op {
        Some(o) => Some(o.as_str()),
        None => None,
    };
    let message_ref: Option<&str> = match &message {
        Some(m) => Some(m.as_str()),
        None => None,
    };
    plan_background_job(op_ref, seconds_unsigned, seconds_signed, message_ref)
}

/// The label a job runs under: `sleep_log:<seconds>s`.
pub fn job_label(job: &BackgroundJob) -> (s: String)
    ensures
        s@ == "sleep_log:"@ + decimal(job.seconds as nat) + "s"@,
{
    let mut s = owned("sleep_log:");
    let d = decimal_string(job.seconds);
    s.append(d.as_str());
    s.append("s");
    s
}

/// The tool's reply once a job is queued.
pub fn queued_reply() -> (s: String)
    ensures
        s@ == "{\"queued\":true,\"op\":\"sleep_log\"}"@,
{
    owned("{\"queued\":true,\"op\":\"sleep_log\"}")
}

} // verus!
