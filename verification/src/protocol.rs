//! Public protocol types for agent turns and a minimal turn memory.

use vstd::prelude::*;

verus! {

/// Mathematical model of an [`AgentTurn`] or an [`AgentReply`]: agent id and text.
pub struct TurnView {
    pub agent_id: Seq<char>,
    pub text: Seq<char>,
}

/// One agent turn request.
#[derive(Debug, Clone, PartialEq, Eq)]
pub struct AgentTurn {
    pub agent_id: String,
    pub input: String,
}

impl View for AgentTurn {
    type V = TurnView;

    open spec fn view(&self) -> TurnView {
        TurnView { agent_id: self.agent_id@, text: self.input@ }
    }
}

impl DeepView for AgentTurn {
    type V = TurnView;

    open spec fn deep_view(&self) -> TurnView {
        self@
    }
}

/// One agent turn response.
#[derive(Debug, Clone, PartialEq, Eq)]
pub struct AgentReply {
    pub agent_id: String,
    pub output: String,
}

impl View for AgentReply {
    type V = TurnView;

    open spec fn view(&self) -> TurnView {
        TurnView { agent_id: self.agent_id@, text: self.output@ }
    }
}

/// Storing and retrieving past turns (simple `Agent` path).
pub trait Memory: Send {
    fn remember(&mut self, turn: AgentTurn);

    fn history(&self) -> &[AgentTurn];
}

/// In-memory history of [`AgentTurn`]s.
#[derive(Debug, Clone)]
pub struct InMemoryMemory {
    history: Vec<AgentTurn>,
}

impl View for InMemoryMemory {
    type V = Seq<TurnView>;

    closed spec fn view(&self) -> Seq<TurnView> {
        self.history.deep_view()
    }
}

impl Default for InMemoryMemory {
    fn default() -> (m: InMemoryMemory)
        ensures
            m@ == Seq::<TurnView>::empty(),
    {
        let m = InMemoryMemory { history: Vec::new() };
        assert(m@ =~= Seq::<TurnView>::empty());
        m
    }
}

impl Memory for InMemoryMemory {
    /// Appends `turn` to the history.
    fn remember(&mut self, turn: AgentTurn)
        ensures
            final(self)@ == old(self)@.push(turn@),
    {
        self.history.push(turn);
        assert(self.history.deep_view() =~= old(self).history.deep_view().push(turn@));
    }

    /// Every turn remembered so far, oldest first.
    fn history(&self) -> (h: &[AgentTurn])
        ensures
            h.deep_view() == self@,
    {
        self.history.as_slice()
    }
}

} // verus!
