//! Core agent trait and the built-in echo agent.

use vstd::prelude::*;

use crate::errors::AgentError;
use crate::text::owned;

verus! {

/// Something that can process text input and return a response.
pub trait Agent: Send {
    fn id(&self) -> &str;

    /// Handle one turn of input.
    fn handle(&mut self, input: &str) -> Result<String, AgentError>;
}

/// Minimal echo agent for wiring tests and the CLI.
#[derive(Debug, Clone)]
pub struct EchoAgent {
    id: String,
}

impl View for EchoAgent {
    type V = Seq<char>;

    /// The agent's id.
    closed spec fn view(&self) -> Seq<char> {
        self.id@
    }
}

impl Default for EchoAgent {
    fn default() -> (a: EchoAgent)
        ensures
            a@ == Seq::<char>::empty(),
    {
        EchoAgent { id: String::new() }
    }
}

impl EchoAgent {
    pub fn new(id: &str) -> (a: EchoAgent)
        ensures
            a@ == id@,
    {
        EchoAgent { id: owned(id) }
    }

    /// The text `EchoAgent(<id>)` that names the agent to people.
    pub fn display_text(&self) -> (t: String)
        ensures
            t@ == "EchoAgent("@ + self@ + ")"@,
    {
        let mut t = owned("EchoAgent(");
        t.append(self.id.as_str());
        t.append(")");
        t
    }
}

impl Agent for EchoAgent {
    fn id(&self) -> (r: &str)
        ensures
            r@ == self@,
    {
        self.id.as_str()
    }

    /// Replies `[<id>] <input>`.
    fn handle(&mut self, input: &str) -> (r: Result<String, AgentError>)
        ensures
            final(self)@ == old(self)@,
            r matches Ok(out) && out@ == "["@ + old(self)@ + "] "@ + input@,
    {
        let mut out = owned("[");
        out.append(self.id.as_str());
        out.append("] ");
        out.append(input);
        Ok(out)
    }
}

} // verus!
