//! Error type used across the library.

use vstd::prelude::*;

verus! {

/// Errors produced while running an agent.
#[derive(Debug)]
pub enum AgentError {
    Message(String),
}

impl AgentError {
    /// The message carried by the error.
    pub open spec fn message(&self) -> Seq<char> {
        match self {
            AgentError::Message(m) => m@,
        }
    }

    /// Build an error from a message.
    pub fn msg(s: &str) -> (e: AgentError)
        ensures
            e.message() == s@,
    {
        AgentError::Message(s.to_owned())
    }

    /// The text the error shows to people: `agent error: <message>`.
    pub fn to_text(&self) -> (t: String)
        ensures
            t@ == "agent error: "@ + self.message(),
    {
        match self {
            AgentError::Message(m) => {
                let mut t = "agent error: ".to_owned();
                t.append(m.as_str());
                t
            },
        }
    }
}

} // verus!
