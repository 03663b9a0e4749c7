//! `llmos`: agent primitives, chat sessions with tool-aware history windowing,
//! tool policy, prompt assembly, chat models, tools and the model/tool turn loop,
//! plus the decisions of the streamed harness turn and the daemon's front-ends.

pub mod agent_core;
pub mod agent_loop;
pub mod background;
pub mod browser;
pub mod bus;
pub mod daemon;
pub mod errors;
pub mod harness;
pub mod json;
pub mod laws;
pub mod model;
pub mod order;
pub mod policy;
pub mod prompting;
pub mod protocol;
pub mod runtime;
pub mod scheduler;
pub mod session;
pub mod text;
pub mod tools;

pub use agent_core::{Agent, EchoAgent};
pub use agent_loop as agent;
pub use errors::AgentError;
pub use protocol::{AgentReply, AgentTurn, InMemoryMemory, Memory};
pub use runtime::AgentRuntime;
