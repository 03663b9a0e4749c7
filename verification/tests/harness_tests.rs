use llmos::agent::LoopEmit;
use llmos::errors::AgentError;
use llmos::harness::{
    agent_error_to_status, authorize_tools_phase, client_disconnected, closing_payloads, complete_payload,
    debug_list_text, map_loop_emit, opening_payloads, run_turn_events,
    memory_context, request_error_status, request_policy, runtime_note, summarize_session, truncate,
    validate_turn_request, EventSequencer, HarnessEvent, Payload, RequestError, RunTurnParams, StatusCode,
    TurnOutputCollector,
};
use llmos::policy::ToolPolicy;
use llmos::agent::AgentLoopConfig;
use llmos::model::{AssistantTurn, ModelToolCall, PingPongChatModel, ScriptedChatModel};
use llmos::prompting::ContextBuilder;
use llmos::session::{ChatMessage, ChatRole, Session};
use llmos::tools::ToolRegistry;

fn params() -> RunTurnParams {
    RunTurnParams {
        session_id: "s1".into(),
        agent_id: "cli".into(),
        user_message: "ping".into(),
        client_tool_allowlist: vec![],
    }
}

#[test]
fn validation_requires_ids_in_order() {
    let e = validate_turn_request(String::new(), String::new(), "m".into(), vec![]).unwrap_err();
    assert_eq!(e, RequestError::MissingSessionId);
    assert_eq!(e.text(), "session_id is required");
    let e2 = validate_turn_request("s".into(), String::new(), "m".into(), vec![]).unwrap_err();
    assert_eq!(e2.text(), "agent_id is required");
    let p = validate_turn_request("s".into(), "a".into(), "m".into(), vec!["ping".into()]).unwrap();
    assert_eq!(p.session_id, "s");
    assert_eq!(p.client_tool_allowlist, vec!["ping".to_string()]);
    let st = request_error_status(e2);
    assert_eq!(st.code, StatusCode::InvalidArgument);
    assert_eq!(st.to_text(), "InvalidArgument: agent_id is required");
}

#[test]
fn sequencer_numbers_events() {
    let mut s = EventSequencer::for_turn(&params());
    let e1 = s.next(complete_payload("a", "b"));
    let e2 = s.next(complete_payload("a", "c"));
    assert_eq!(e1.correlation_id, "s1-cli");
    assert_eq!(e1.seq, 1);
    assert_eq!(e2.seq, 2);
}

#[test]
fn phases_and_notes() {
    match authorize_tools_phase(&ToolPolicy::default()) {
        Payload::Phase { name, detail } => {
            assert_eq!(name, "authorize_tools");
            assert_eq!(detail, "allowed_tools=[\"ping\", \"background_job\", \"browser\"]");
        }
        _ => panic!("not a phase"),
    }
    assert_eq!(runtime_note(&params()), "session_id=s1\nagent_id=cli");
    let mut p = params();
    p.client_tool_allowlist = vec!["x".into()];
    assert!(request_policy(&p, &ToolPolicy::default()).allows("x"));
    assert!(request_policy(&params(), &ToolPolicy::default()).allows("ping"));
}

#[test]
fn truncate_cuts_bytes_with_ellipsis() {
    assert_eq!(truncate("short", 80), "short");
    assert_eq!(truncate("abcdef", 4), "abc…");
    assert_eq!(truncate("abc", 0), "…");
    let long = "x".repeat(100);
    assert_eq!(truncate(&long, 80), format!("{}…", "x".repeat(79)));
}

#[test]
fn summary_of_last_three_messages() {
    let mut s = Session::default();
    assert_eq!(summarize_session(&s), "");
    s.push(ChatMessage::user("one"));
    s.push(ChatMessage::assistant_text("two"));
    s.push(ChatMessage::tool_result("t", "ping", "three"));
    s.push(ChatMessage::user("four"));
    assert_eq!(summarize_session(&s), "assistant: two | tool: three | user: four");
    match memory_context(&s) {
        Payload::Memory { summary, prior_turns } => {
            assert_eq!(prior_turns, 4);
            assert!(summary.ends_with("user: four"));
        }
        _ => panic!("not memory"),
    }
}

#[test]
fn loop_events_map_to_payloads() {
    match map_loop_emit(LoopEmit::Iteration { n: 12 }) {
        Payload::Log { level, message } => {
            assert_eq!(level, "info");
            assert_eq!(message, "model iteration 12");
        }
        _ => panic!(),
    }
    assert!(matches!(map_loop_emit(LoopEmit::AssistantText { text: "t".into() }), Payload::Partial { chunk } if chunk == "t"));
    assert!(matches!(
        map_loop_emit(LoopEmit::ToolInvoked { name: "n".into(), request: "q".into(), response: "r".into() }),
        Payload::Tool { tool_name, request, response } if tool_name == "n" && request == "q" && response == "r"
    ));
    assert!(matches!(map_loop_emit(LoopEmit::Phase { name: "a".into(), detail: "b".into() }), Payload::Phase { name, .. } if name == "a"));
    assert!(matches!(map_loop_emit(LoopEmit::Log { level: "warn".into(), message: "m".into() }), Payload::Log { level, .. } if level == "warn"));
}

#[test]
fn errors_map_to_statuses() {
    let s = agent_error_to_status(&AgentError::msg("tool x is not authorized for this turn"));
    assert_eq!(s.code, StatusCode::PermissionDenied);
    assert_eq!(s.message, "agent error: tool x is not authorized for this turn");
    let s2 = agent_error_to_status(&AgentError::msg("boom"));
    assert_eq!(s2.code, StatusCode::Internal);
    assert_eq!(client_disconnected().message, "client disconnected");
}

#[test]
fn collector_keeps_last_completion() {
    let mut c = TurnOutputCollector::new();
    let ev = |p: Payload| HarnessEvent { correlation_id: "c".into(), seq: 1, payload: Some(p) };
    assert!(c.absorb(ev(Payload::Partial { chunk: "x".into() }), "").is_none());
    assert!(c.absorb(ev(complete_payload("a", "first")), "").is_none());
    assert!(c.absorb(ev(complete_payload("a", "second")), "").is_none());
    assert_eq!(c.clone().finish().unwrap(), "second");
    let err = c.absorb(ev(Payload::Error { code: "E1".into(), message: "bad".into() }), "server error ");
    assert_eq!(err.unwrap(), "server error E1: bad");
    assert_eq!(TurnOutputCollector::new().finish().unwrap_err(), "stream ended without TurnComplete");
}

#[test]
fn opening_then_closing_events_are_numbered_in_order() {
    let mut session = Session::default();
    session.push(ChatMessage::user("hello"));
    let policy = ToolPolicy::new(vec!["ping".to_string()]);
    let opening = opening_payloads(&policy, &session);
    assert_eq!(opening.len(), 4);
    assert!(matches!(&opening[0], Payload::Phase { name, detail } if name == "authorize_tools" && detail == "allowed_tools=[\"ping\"]"));
    assert!(matches!(&opening[1], Payload::Phase { name, .. } if name == "memory_retrieve"));
    assert!(matches!(&opening[2], Payload::Memory { summary, prior_turns } if summary == "user: hello" && *prior_turns == 1));
    assert!(matches!(&opening[3], Payload::Phase { name, .. } if name == "agent_loop"));

    let emits = vec![LoopEmit::Iteration { n: 1 }, LoopEmit::AssistantText { text: "pong".into() }];
    let closing = closing_payloads(&emits, "cli", "pong");
    assert_eq!(closing.len(), 3);
    assert!(matches!(&closing[0], Payload::Log { level, message } if level == "info" && message == "model iteration 1"));
    assert!(matches!(&closing[1], Payload::Partial { chunk } if chunk == "pong"));
    assert!(matches!(&closing[2], Payload::Complete { agent_id, output } if agent_id == "cli" && output == "pong"));

    let mut seq = EventSequencer::for_turn(&params());
    let first = seq.number_all(opening);
    let second = seq.number_all(closing);
    let all: Vec<HarnessEvent> = first.into_iter().chain(second).collect();
    assert_eq!(all.len(), 7);
    for (i, ev) in all.iter().enumerate() {
        assert_eq!(ev.seq, i as u64 + 1);
        assert_eq!(ev.correlation_id, "s1-cli");
        assert!(ev.payload.is_some());
    }
    assert_eq!(seq.seq(), 7);
}

fn no_bootstrap(_: &str) -> String {
    String::new()
}

fn turn(msg: &str) -> RunTurnParams {
    RunTurnParams {
        session_id: "s".into(),
        agent_id: "a".into(),
        user_message: msg.into(),
        client_tool_allowlist: vec![],
    }
}

#[test]
fn ping_pong_turn_streams_seven_events() {
    let reg = ToolRegistry::new();
    let policy = ToolPolicy::new(vec![]);
    let mut model = PingPongChatModel;
    let ctx = ContextBuilder::default();
    let cfg = AgentLoopConfig::default();
    let mut session = Session::default();
    let (_, first) =
        run_turn_events(&mut session, &turn("ping"), &reg, &policy, &mut model, &ctx, &cfg, &no_bootstrap);
    assert!(first.is_ok());
    let (events, r) =
        run_turn_events(&mut session, &turn("hi"), &reg, &policy, &mut model, &ctx, &cfg, &no_bootstrap);
    assert!(r.is_ok());
    assert_eq!(events.len(), 7);
    for (i, ev) in events.iter().enumerate() {
        assert_eq!(ev.seq, i as u64 + 1);
        assert_eq!(ev.correlation_id, "s-a");
    }
    assert!(matches!(&events[0].payload, Some(Payload::Phase { name, detail }) if name == "authorize_tools" && detail == "allowed_tools=[]"));
    assert!(matches!(&events[1].payload, Some(Payload::Phase { name, detail }) if name == "memory_retrieve" && detail == "load session transcript"));
    assert!(matches!(&events[2].payload, Some(Payload::Memory { summary, prior_turns }) if summary == "user: ping | assistant: pong" && *prior_turns == 2));
    assert!(matches!(&events[3].payload, Some(Payload::Phase { name, .. }) if name == "agent_loop"));
    assert!(matches!(&events[4].payload, Some(Payload::Log { level, message }) if level == "info" && message == "model iteration 1"));
    assert!(matches!(&events[5].payload, Some(Payload::Partial { chunk }) if chunk == "echo: hi"));
    assert!(matches!(&events[6].payload, Some(Payload::Complete { agent_id, output }) if agent_id == "a" && output == "echo: hi"));
}

#[test]
fn refused_tool_ends_turn_with_permission_denied() {
    let reg = ToolRegistry::new();
    let policy = ToolPolicy::new(vec![]);
    let mut model = ScriptedChatModel::new(vec![AssistantTurn {
        content: None,
        tool_calls: vec![ModelToolCall { id: "1".into(), name: "browser".into(), arguments_json: "{}".into() }],
    }]);
    let ctx = ContextBuilder::default();
    let cfg = AgentLoopConfig::default();
    let mut session = Session::default();
    let (events, r) =
        run_turn_events(&mut session, &turn("go"), &reg, &policy, &mut model, &ctx, &cfg, &no_bootstrap);
    let st = r.unwrap_err();
    assert_eq!(st.code, StatusCode::PermissionDenied);
    assert_eq!(st.message, "agent error: tool browser is not authorized for this turn");
    assert_eq!(events.len(), 4);
    assert!(matches!(&events[2].payload, Some(Payload::Memory { summary, prior_turns }) if summary.is_empty() && *prior_turns == 0));
    assert_eq!(events[3].seq, 4);
    assert_eq!(session.messages.len(), 2);
    assert_eq!(session.messages[0], ChatMessage::user("go"));
    assert_eq!(session.messages[1].role, ChatRole::Assistant);
    assert_eq!(session.messages[1].tool_calls.as_ref().unwrap()[0].name, "browser");
}

#[test]
fn tool_list_text_matches_debug_formatting() {
    let names: Vec<String> = vec!["a\"b".into(), "c\\d".into(), "e".into()];
    assert_eq!(debug_list_text(&names), format!("{:?}", names));
    assert_eq!(debug_list_text(&[]), "[]");
}
