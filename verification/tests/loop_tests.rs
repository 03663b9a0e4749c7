use llmos::agent::{apply_model_answer, run_turn_with_loop, AgentLoopConfig, LoopEmit, StepOutcome};
use llmos::model::{AssistantTurn, ModelToolCall, PingPongChatModel, ScriptedChatModel};
use llmos::policy::ToolPolicy;
use llmos::prompting::ContextBuilder;
use llmos::session::{ChatMessage, ChatRole, Session};
use llmos::AgentError;
use llmos::tools::{PingTool, ToolRegistry};

fn no_bootstrap(_: &str) -> String {
    String::new()
}

fn ping_call(id: &str, args: &str) -> AssistantTurn {
    AssistantTurn {
        content: None,
        tool_calls: vec![ModelToolCall { id: id.into(), name: "ping".into(), arguments_json: args.into() }],
    }
}

#[test]
fn loop_runs_tool_then_finishes() {
    let mut reg = ToolRegistry::new();
    reg.register(Box::new(PingTool));
    let policy = ToolPolicy::default();
    let mut model = ScriptedChatModel::new(vec![
        AssistantTurn {
            content: None,
            tool_calls: vec![ModelToolCall {
                id: "1".into(),
                name: "ping".into(),
                arguments_json: "{}".into(),
            }],
        },
        AssistantTurn {
            content: Some("all good".into()),
            tool_calls: vec![],
        },
    ]);
    let ctx = ContextBuilder::default();
    let cfg = AgentLoopConfig { max_iterations: 8 };
    let mut session = Session::default();
    let mut events = Vec::new();
    let out = run_turn_with_loop(
        &mut session,
        "hi",
        &reg,
        &policy,
        &mut model,
        &ctx,
        &cfg,
        None,
        &no_bootstrap,
        &mut events,
    )
    .unwrap();
    assert_eq!(out, "all good");
    assert!(events.iter().any(|e| matches!(e, LoopEmit::ToolInvoked { name, .. } if name == "ping")));
}

#[test]
fn loop_records_the_whole_exchange() {
    let mut reg = ToolRegistry::new();
    reg.register(Box::new(PingTool));
    let policy = ToolPolicy::default();
    let mut model = ScriptedChatModel::new(vec![
        ping_call("c1", ""),
        AssistantTurn { content: Some("done".into()), tool_calls: vec![] },
    ]);
    let mut session = Session::default();
    let mut events = Vec::new();
    let out = run_turn_with_loop(
        &mut session,
        "go",
        &reg,
        &policy,
        &mut model,
        &ContextBuilder::default(),
        &AgentLoopConfig::default(),
        Some("note"),
        &no_bootstrap,
        &mut events,
    )
    .unwrap();
    assert_eq!(out, "done");
    let m = &session.messages;
    assert_eq!(m.len(), 4);
    assert_eq!(m[0].role, ChatRole::User);
    assert_eq!(m[1].role, ChatRole::Assistant);
    assert_eq!(m[1].tool_calls.as_ref().unwrap()[0].id, "c1");
    assert_eq!(m[2].role, ChatRole::Tool);
    assert_eq!(m[2].content, "pong");
    assert_eq!(m[2].tool_call_id.as_deref(), Some("c1"));
    assert_eq!(m[3].content, "done");
    assert_eq!(events.len(), 5);
    assert!(matches!(&events[0], LoopEmit::Iteration { n: 1 }));
    assert!(matches!(&events[1], LoopEmit::Phase { name, detail } if name == "tool_execute" && detail == "ping"));
    assert!(matches!(&events[2], LoopEmit::ToolInvoked { request, response, .. } if request.is_empty() && response == "pong"));
    assert!(matches!(&events[3], LoopEmit::Iteration { n: 2 }));
    assert!(matches!(&events[4], LoopEmit::AssistantText { text } if text == "done"));
}

#[test]
fn loop_refuses_unauthorized_tool() {
    let mut reg = ToolRegistry::new();
    reg.register(Box::new(PingTool));
    let policy = ToolPolicy::new(vec!["browser".to_string()]);
    let mut model = ScriptedChatModel::new(vec![ping_call("c1", "{}")]);
    let mut session = Session::default();
    let mut events = Vec::new();
    let err = run_turn_with_loop(
        &mut session,
        "go",
        &reg,
        &policy,
        &mut model,
        &ContextBuilder::default(),
        &AgentLoopConfig::default(),
        None,
        &no_bootstrap,
        &mut events,
    )
    .unwrap_err();
    assert_eq!(err.to_text(), "agent error: tool ping is not authorized for this turn");
    assert!(session.messages.iter().all(|m| m.role != ChatRole::Tool));
}

#[test]
fn loop_with_zero_iterations_fails_at_once() {
    let reg = ToolRegistry::new();
    let mut model = ScriptedChatModel::new(vec![]);
    let mut session = Session::default();
    let mut events = Vec::new();
    let err = run_turn_with_loop(
        &mut session,
        "go",
        &reg,
        &ToolPolicy::default(),
        &mut model,
        &ContextBuilder::default(),
        &AgentLoopConfig { max_iterations: 0 },
        None,
        &no_bootstrap,
        &mut events,
    )
    .unwrap_err();
    assert_eq!(err.to_text(), "agent error: agent loop exceeded max_iterations (0)");
    assert_eq!(session.messages.len(), 1);
    assert!(events.is_empty());
}

#[test]
fn loop_exceeds_iterations_when_model_keeps_calling_tools() {
    let mut reg = ToolRegistry::new();
    reg.register(Box::new(PingTool));
    let mut model = ScriptedChatModel::new(vec![ping_call("a", "{}"), ping_call("b", "{}")]);
    let mut session = Session::default();
    let mut events = Vec::new();
    let err = run_turn_with_loop(
        &mut session,
        "go",
        &reg,
        &ToolPolicy::default(),
        &mut model,
        &ContextBuilder::default(),
        &AgentLoopConfig { max_iterations: 2 },
        None,
        &no_bootstrap,
        &mut events,
    )
    .unwrap_err();
    assert_eq!(err.to_text(), "agent error: agent loop exceeded max_iterations (2)");
}

#[test]
fn loop_reports_bad_tool_json_and_unknown_tool() {
    let mut reg = ToolRegistry::new();
    reg.register(Box::new(PingTool));
    let mut model = ScriptedChatModel::new(vec![ping_call("a", "{not json")]);
    let mut session = Session::default();
    let mut events = Vec::new();
    let err = run_turn_with_loop(
        &mut session,
        "go",
        &reg,
        &ToolPolicy::default(),
        &mut model,
        &ContextBuilder::default(),
        &AgentLoopConfig::default(),
        None,
        &no_bootstrap,
        &mut events,
    )
    .unwrap_err();
    assert!(err.to_text().starts_with("agent error: invalid tool JSON: "));

    let empty = ToolRegistry::new();
    let mut model2 = ScriptedChatModel::new(vec![ping_call("a", "{}")]);
    let mut session2 = Session::default();
    let mut events2 = Vec::new();
    let err2 = run_turn_with_loop(
        &mut session2,
        "go",
        &empty,
        &ToolPolicy::default(),
        &mut model2,
        &ContextBuilder::default(),
        &AgentLoopConfig::default(),
        None,
        &no_bootstrap,
        &mut events2,
    )
    .unwrap_err();
    assert_eq!(err2.to_text(), "agent error: unknown tool: ping");
}

#[test]
fn loop_asks_for_bootstrap_with_workspace() {
    let reg = ToolRegistry::new();
    let mut model = ScriptedChatModel::new(vec![AssistantTurn { content: None, tool_calls: vec![] }]);
    let mut session = Session::default();
    let mut events = Vec::new();
    let seen = std::cell::Cell::new(0);
    let load = |w: &str| {
        assert_eq!(w, "/ws");
        seen.set(seen.get() + 1);
        "## AGENTS.md\n\nbe nice".to_string()
    };
    let out = run_turn_with_loop(
        &mut session,
        "go",
        &reg,
        &ToolPolicy::default(),
        &mut model,
        &ContextBuilder::with_workspace_dir("/ws"),
        &AgentLoopConfig::default(),
        None,
        &load,
        &mut events,
    )
    .unwrap();
    assert_eq!(out, "");
    assert_eq!(seen.get(), 1);
}

#[test]
fn simple_harness_answers_ping_with_pong_after_earlier_turns() {
    let reg = ToolRegistry::new();
    let policy = ToolPolicy::new(vec![]);
    let mut model = PingPongChatModel;
    let ctx = ContextBuilder::default();
    let cfg = AgentLoopConfig::default();
    let mut session = Session::default();
    session.push(ChatMessage::user("hello"));
    session.push(ChatMessage::assistant_text("echo: hello"));
    let mut events = Vec::new();
    let out = run_turn_with_loop(
        &mut session, " Ping ", &reg, &policy, &mut model, &ctx, &cfg, None, &no_bootstrap, &mut events,
    )
    .unwrap();
    assert_eq!(out, "pong");
    let out2 = run_turn_with_loop(
        &mut session, "hi there", &reg, &policy, &mut model, &ctx, &cfg, None, &no_bootstrap, &mut events,
    )
    .unwrap();
    assert_eq!(out2, "echo: hi there");
    assert_eq!(session.messages.len(), 6);
    assert_eq!(session.messages[5].content, "echo: hi there");
}

#[test]
fn model_answer_cases() {
    let mut reg = ToolRegistry::new();
    reg.register(Box::new(PingTool));
    let policy = ToolPolicy::default();
    let mut session = Session::default();
    let mut events = Vec::new();

    let o = apply_model_answer(&mut session, &reg, &policy, Err(AgentError::msg("down")), &mut events);
    assert!(matches!(o, StepOutcome::Failed(AgentError::Message(ref m)) if m == "down"));
    assert!(session.messages.is_empty() && events.is_empty());

    let o = apply_model_answer(
        &mut session,
        &reg,
        &policy,
        Ok(AssistantTurn { content: None, tool_calls: vec![] }),
        &mut events,
    );
    assert!(matches!(o, StepOutcome::Answered(ref t) if t.is_empty()));
    assert_eq!(session.messages.len(), 1);
    assert_eq!(session.messages[0].role, ChatRole::Assistant);
    assert!(matches!(&events[0], LoopEmit::AssistantText { text } if text.is_empty()));

    let o = apply_model_answer(&mut session, &reg, &policy, Ok(ping_call("c1", "{}")), &mut events);
    assert!(matches!(o, StepOutcome::ToolsRan));
    assert_eq!(session.messages.len(), 3);
    assert_eq!(session.messages[1].role, ChatRole::Assistant);
    assert_eq!(session.messages[2].role, ChatRole::Tool);
    assert_eq!(session.messages[2].tool_call_id.as_deref(), Some("c1"));

    let o = apply_model_answer(&mut session, &reg, &ToolPolicy::new(vec![]), Ok(ping_call("c2", "{}")), &mut events);
    assert!(matches!(o, StepOutcome::Failed(AgentError::Message(ref m)) if m == "tool ping is not authorized for this turn"));
    assert_eq!(session.messages.len(), 4);
}

#[test]
fn allowed_call_runs_then_refused_call_stops() {
    let mut reg = ToolRegistry::new();
    reg.register(Box::new(PingTool));
    let policy = ToolPolicy::new(vec!["ping".to_string()]);
    let mut model = ScriptedChatModel::new(vec![AssistantTurn {
        content: None,
        tool_calls: vec![
            ModelToolCall { id: "c1".into(), name: "ping".into(), arguments_json: "{}".into() },
            ModelToolCall { id: "c2".into(), name: "shell".into(), arguments_json: "{}".into() },
        ],
    }]);
    let ctx = ContextBuilder::default();
    let cfg = AgentLoopConfig::default();
    let mut session = Session::default();
    let mut events = Vec::new();
    let err = run_turn_with_loop(
        &mut session, "go", &reg, &policy, &mut model, &ctx, &cfg, None, &no_bootstrap, &mut events,
    )
    .unwrap_err();
    assert_eq!(err.to_text(), "agent error: tool shell is not authorized for this turn");
    assert_eq!(session.messages.len(), 3);
    assert_eq!(session.messages[2].role, ChatRole::Tool);
    assert_eq!(session.messages[2].content, "pong");
    assert_eq!(events.len(), 3);
    assert!(matches!(&events[1], LoopEmit::Phase { name, detail } if name == "tool_execute" && detail == "ping"));
    assert!(matches!(&events[2], LoopEmit::ToolInvoked { name, response, .. } if name == "ping" && response == "pong"));
}
