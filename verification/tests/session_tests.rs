use llmos::session::{find_legal_tool_start, ChatMessage, ChatRole, Session, SessionManager, ToolCallRecord};

fn call(id: &str) -> ToolCallRecord {
    ToolCallRecord { id: id.into(), name: "ping".into(), arguments_json: "{}".into() }
}

#[test]
fn legal_start_drops_orphan_tool() {
    let messages = vec![
        ChatMessage::user("hi"),
        ChatMessage::assistant_text("calling"),
        ChatMessage::tool_result("missing-id", "x", "oops"),
        ChatMessage::user("again"),
    ];
    let start = find_legal_tool_start(&messages);
    assert_eq!(start, 3);
}

#[test]
fn get_history_keeps_matched_tool_pair() {
    let mut s = Session::default();
    s.push(ChatMessage::user("u1"));
    s.push(ChatMessage::assistant_tools(
        vec![ToolCallRecord {
            id: "t1".into(),
            name: "ping".into(),
            arguments_json: "{}".into(),
        }],
        "",
    ));
    s.push(ChatMessage::tool_result("t1", "ping", "pong"));
    let h = s.get_history_for_model(50);
    assert_eq!(h.len(), 3);
}

#[test]
fn legal_start_is_zero_when_all_tool_results_answered() {
    let messages = vec![
        ChatMessage::user("u"),
        ChatMessage::assistant_tools(vec![call("a"), call("b")], ""),
        ChatMessage::tool_result("a", "ping", "1"),
        ChatMessage::tool_result("b", "ping", "2"),
    ];
    assert_eq!(find_legal_tool_start(&messages), 0);
}

#[test]
fn legal_start_ignores_empty_ids() {
    let messages = vec![
        ChatMessage::tool_result("", "ping", "x"),
        ChatMessage {
            role: ChatRole::Tool,
            content: "y".into(),
            tool_calls: None,
            tool_call_id: None,
            name: None,
        },
    ];
    assert_eq!(find_legal_tool_start(&messages), 0);
}

#[test]
fn legal_start_after_last_orphan_and_reset() {
    // The first orphan resets the declared ids, so `a` no longer counts afterwards.
    let messages = vec![
        ChatMessage::assistant_tools(vec![call("a")], ""),
        ChatMessage::tool_result("zz", "ping", "orphan"),
        ChatMessage::tool_result("a", "ping", "late"),
        ChatMessage::user("next"),
    ];
    assert_eq!(find_legal_tool_start(&messages), 3);
    assert_eq!(find_legal_tool_start(&[]), 0);
}

#[test]
fn history_empty_cases() {
    let mut s = Session::default();
    assert!(s.get_history_for_model(10).is_empty());
    s.push(ChatMessage::user("u"));
    assert!(s.get_history_for_model(0).is_empty());
}

#[test]
fn history_caps_and_starts_at_user() {
    let mut s = Session::default();
    s.push(ChatMessage::user("u1"));
    s.push(ChatMessage::assistant_text("a1"));
    s.push(ChatMessage::user("u2"));
    s.push(ChatMessage::assistant_text("a2"));
    // Last three are a1, u2, a2; the window starts at the first user message, u2.
    let h = s.get_history_for_model(3);
    assert_eq!(h.len(), 2);
    assert_eq!(h[0].content, "u2");
    assert_eq!(h[1].content, "a2");
    // Without a user message in the window it is kept whole.
    let h1 = s.get_history_for_model(1);
    assert_eq!(h1.len(), 1);
    assert_eq!(h1[0].content, "a2");
}

#[test]
fn history_drops_prefix_up_to_orphan() {
    let mut s = Session::default();
    s.push(ChatMessage::user("u1"));
    s.push(ChatMessage::tool_result("gone", "ping", "x"));
    s.push(ChatMessage::assistant_text("after"));
    let h = s.get_history_for_model(10);
    assert_eq!(h.len(), 1);
    assert_eq!(h[0].content, "after");
}

#[test]
fn history_is_empty_when_no_aligned_start_remains() {
    let mut s = Session::default();
    s.push(ChatMessage::user("u1"));
    s.push(ChatMessage::tool_result("gone", "ping", "x"));
    // Only the position past the unanswered tool result is free of orphans.
    let h = s.get_history_for_model(10);
    assert!(h.is_empty());
}

#[test]
fn manager_creates_and_finds_sessions() {
    let mut m = SessionManager::default();
    assert!(m.get_mut("a").is_none());
    m.get_or_create("a").push(ChatMessage::user("hello"));
    m.get_or_create("b");
    assert_eq!(m.get_or_create("a").messages.len(), 1);
    let a = m.get_mut("a").unwrap();
    a.push(ChatMessage::assistant_text("hi"));
    assert_eq!(m.get_mut("a").unwrap().messages.len(), 2);
    assert_eq!(m.get_mut("b").unwrap().messages.len(), 0);
}
