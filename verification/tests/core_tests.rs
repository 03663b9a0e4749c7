use llmos::agent_core::{Agent, EchoAgent};
use llmos::errors::AgentError;
use llmos::protocol::{AgentTurn, InMemoryMemory, Memory};
use llmos::runtime::{turn_reply, AgentRuntime};

#[test]
fn echo_agent_prefixes_id() {
    let mut a = EchoAgent::new("demo");
    let out = a.handle("hello").unwrap();
    assert_eq!(out, "[demo] hello");
}

#[test]
fn echo_agent_reports_id_and_display_text() {
    let a = EchoAgent::new("bot-7");
    assert_eq!(a.id(), "bot-7");
    assert_eq!(a.display_text(), "EchoAgent(bot-7)");
}

#[test]
fn runtime_runs_one_turn() {
    let rt = AgentRuntime::default();
    let mut a = EchoAgent::new("x");
    let reply = rt.run_turn(&mut a, "ping").unwrap();
    assert_eq!(reply.agent_id, "x");
    assert_eq!(reply.output, "[x] ping");
}

#[test]
fn agent_error_text() {
    let e = AgentError::msg("boom");
    assert_eq!(e.to_text(), "agent error: boom");
    match e {
        AgentError::Message(m) => assert_eq!(m, "boom"),
    }
}

#[test]
fn memory_remembers_in_order() {
    let mut m = InMemoryMemory::default();
    assert!(m.history().is_empty());
    m.remember(AgentTurn { agent_id: "a".into(), input: "one".into() });
    m.remember(AgentTurn { agent_id: "a".into(), input: "two".into() });
    let h = m.history();
    assert_eq!(h.len(), 2);
    assert_eq!(h[0].input, "one");
    assert_eq!(h[1].input, "two");
}

struct FailingAgent;

impl Agent for FailingAgent {
    fn id(&self) -> &str {
        "failing"
    }

    fn handle(&mut self, _input: &str) -> Result<String, AgentError> {
        Err(AgentError::msg("no"))
    }
}

#[test]
fn runtime_passes_agent_errors_on() {
    let rt = AgentRuntime::default();
    let mut a = FailingAgent;
    match rt.run_turn(&mut a, "hi") {
        Err(AgentError::Message(m)) => assert_eq!(m, "no"),
        Ok(_) => panic!("expected the agent's error"),
    }
}

#[test]
fn turn_reply_cases() {
    let r = turn_reply("bot", Ok("out".to_string())).unwrap();
    assert_eq!(r.agent_id, "bot");
    assert_eq!(r.output, "out");
    match turn_reply("bot", Err(AgentError::msg("bad"))) {
        Err(AgentError::Message(m)) => assert_eq!(m, "bad"),
        Ok(_) => panic!("expected the error"),
    }
}
