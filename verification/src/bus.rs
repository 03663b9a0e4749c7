//! Internal message shapes for adapters (RPC, CLI, channels).

use vstd::prelude::*;

verus! {

/// Normalized inbound user turn (thin client to harness).
#[derive(Debug, Clone)]
pub struct InboundTurn {
    pub session_id: String,
    pub agent_id: String,
    pub text: String,
}

/// Outbound assistant text chunk (harness to client).
#[derive(Debug, Clone)]
pub struct OutboundChunk {
    pub text: String,
}

} // verus!
