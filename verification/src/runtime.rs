//! Agent execution runtime (one turn).

use vstd::prelude::*;

use crate::agent_core::Agent;
use crate::errors::AgentError;
use crate::protocol::AgentReply;
use crate::text::owned;

verus! {

/// A minimal runtime that drives a single agent turn.
pub struct AgentRuntime;

impl Default for AgentRuntime {
    fn default() -> (r: AgentRuntime) {
        AgentRuntime
    }
}

impl AgentRuntime {
    /// Run exactly one turn: feed `input` to `agent` and return a structured reply.
    /// The reply carries what the agent's `handle` returned for `input` and the id the
    /// agent reports in the state `handle` left it in; an error from `handle` is passed
    /// on unchanged.
    /// What `handle` returns is up to the agent's implementation.
    pub fn run_turn<A: Agent>(&self, agent: &mut A, input: &str) -> (r: Result<AgentReply, AgentError>)
        ensures
            r matches Ok(reply) ==> exists|s: &str| call_ensures(A::id, (&*final(agent),), s) && s@ == reply.agent_id@,
            r matches Ok(reply) ==> exists|m: &mut A, out: String|
                *m == *old(agent) && *final(m) == *final(agent) && #[trigger] call_ensures(
                    A::handle,
                    (m, input),
                    Ok::<String, AgentError>(out),
                ) && reply.output@ == out@,
            r matches Err(e) ==> exists|m: &mut A|
                *m == *old(agent) && *final(m) == *final(agent) && #[trigger] call_ensures(
                    A::handle,
                    (m, input),
                    Err::<String, AgentError>(e),
                ),
    {
        let ghost a0 = *agent;
        let handled = agent.handle(input);
        assert(exists|m: &mut A| *m == a0 && *final(m) == *agent && #[trigger] call_ensures(A::handle, (m, input), handled));
        let ghost h = handled;
        let r = turn_reply(agent.id(), handled);
        assert(r matches Err(e) ==> h == Err::<String, AgentError>(e));
        assert(r matches Ok(reply) ==> (h matches Ok(o) && o@ == reply.output@));
        r
    }
}

/// The reply of a turn from what the agent's `handle` returned: its output with the
/// agent's id, or its error unchanged.
pub fn turn_reply(agent_id: &str, handled: Result<String, AgentError>) -> (r: Result<AgentReply, AgentError>)
    ensures
        match handled {
            Ok(output) => r matches Ok(reply) && reply.agent_id@ == agent_id@ && reply.output@ == output@,
            Err(e) => r == Err::<AgentReply, AgentError>(e),
        },
{
    match handled {
        Ok(output) => Ok(AgentReply { agent_id: owned(agent_id), output }),
        Err(e) => Err(e),
    }
}

} // verus!
