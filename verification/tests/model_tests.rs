use llmos::errors::AgentError;
use llmos::model::{
    generation_reply, AssistantTurn, ChatModel, EchoChatModel, FlattenChatModel, KeywordToolModel, Model,
    ModelToolCall,
    PingPongChatModel, ScriptedChatModel, UnconfiguredModel,
};
use llmos::prompting::BuiltContext;
use llmos::session::ChatMessage;
use llmos::tools::ToolDefinition;

fn ctx(history: Vec<ChatMessage>) -> BuiltContext {
    BuiltContext { system: "SYS".into(), history }
}

fn ping_def() -> ToolDefinition {
    ToolDefinition {
        name: "ping".into(),
        description: "Health check. No parameters.".into(),
        parameters: "{\"additionalProperties\":false,\"properties\":{},\"type\":\"object\"}".into(),
    }
}

#[test]
fn echo_model_echoes_latest_user_message() {
    let c = ctx(vec![ChatMessage::user("first"), ChatMessage::assistant_text("x"), ChatMessage::user("second")]);
    let t = EchoChatModel.chat(&c, &[]).unwrap();
    assert_eq!(t.content.as_deref(), Some("[echo] second"));
    assert!(t.tool_calls.is_empty());
    let empty = EchoChatModel.chat(&ctx(vec![]), &[]).unwrap();
    assert_eq!(empty.content.as_deref(), Some("[echo] "));
}

#[test]
fn ping_pong_model() {
    let t = PingPongChatModel.chat(&ctx(vec![ChatMessage::user("  PiNg \n")]), &[]).unwrap();
    assert_eq!(t.content.as_deref(), Some("pong"));
    let t2 = PingPongChatModel.chat(&ctx(vec![ChatMessage::user("  hello ")]), &[]).unwrap();
    assert_eq!(t2.content.as_deref(), Some("echo: hello"));
}

#[test]
fn keyword_model_calls_ping_only_when_offered() {
    let c = ctx(vec![ChatMessage::user(" ping ")]);
    let t = KeywordToolModel.chat(&c, &[ping_def()]).unwrap();
    assert!(t.content.is_none());
    assert_eq!(
        t.tool_calls,
        vec![ModelToolCall { id: "kw_ping_1".into(), name: "ping".into(), arguments_json: "{}".into() }]
    );
    let t2 = KeywordToolModel.chat(&c, &[]).unwrap();
    assert_eq!(t2.content.as_deref(), Some("[llmos] ping"));
    let t3 = KeywordToolModel.chat(&ctx(vec![ChatMessage::user("Ping")]), &[ping_def()]).unwrap();
    assert_eq!(t3.content.as_deref(), Some("[llmos] Ping"));
}

#[test]
fn scripted_model_plays_turns_in_order() {
    let mut m = ScriptedChatModel::new(vec![
        AssistantTurn { content: Some("one".into()), tool_calls: vec![] },
        AssistantTurn { content: Some("two".into()), tool_calls: vec![] },
    ]);
    let c = ctx(vec![]);
    assert_eq!(m.chat(&c, &[]).unwrap().content.as_deref(), Some("one"));
    assert_eq!(m.chat(&c, &[]).unwrap().content.as_deref(), Some("two"));
    assert_eq!(m.chat(&c, &[]).unwrap().content.as_deref(), Some("(no more scripted turns)"));
}

#[test]
fn unconfigured_model_fails() {
    let e = UnconfiguredModel.generate("x").unwrap_err();
    assert_eq!(e.to_text(), "agent error: model is not configured");
}

struct Upper;

impl Model for Upper {
    fn generate(&self, prompt: &str) -> Result<String, AgentError> {
        Ok(prompt.to_uppercase())
    }
}

#[test]
fn flatten_prompt_layout() {
    let c = BuiltContext {
        system: "SYS".into(),
        history: vec![ChatMessage::user("hi"), ChatMessage::assistant_text("yo"), ChatMessage::tool_result("1", "ping", "pong")],
    };
    let p = FlattenChatModel::flatten_prompt(&c, &[]);
    assert_eq!(p, "SYS\n\n---\n\nuser: hi\nassistant: yo\ntool: pong\n");
    let p2 = FlattenChatModel::flatten_prompt(&ctx(vec![]), &[ping_def()]);
    assert_eq!(
        p2,
        "SYS\n\n---\n\n\nAvailable tools (JSON function schema):\n{\"description\":\"Health check. No parameters.\",\"name\":\"ping\",\"parameters\":{\"additionalProperties\":false,\"properties\":{},\"type\":\"object\"}}\n"
    );
    let mut m = FlattenChatModel::new(Upper);
    let t = m.chat(&ctx(vec![ChatMessage::user("a")]), &[]).unwrap();
    assert_eq!(t.content.as_deref(), Some("SYS\n\n---\n\nUSER: A\n"));
    let mut bad = FlattenChatModel::new(UnconfiguredModel);
    let e = bad.chat(&ctx(vec![]), &[]).unwrap_err();
    assert_eq!(e.to_text(), "agent error: model is not configured");
    let boxed: Box<dyn Model> = Box::new(Upper);
    let mut dynamic = FlattenChatModel::new(boxed);
    let t2 = dynamic.chat(&ctx(vec![ChatMessage::user("b")]), &[]).unwrap();
    assert_eq!(t2.content.as_deref(), Some("SYS\n\n---\n\nUSER: B\n"));
}

#[test]
fn flatten_tool_line_escapes_like_serde_json() {
    let def = ToolDefinition { name: "q\"t".into(), description: "a\nb".into(), parameters: "{}".into() };
    let p = FlattenChatModel::flatten_prompt(&ctx(vec![]), &[def.clone()]);
    let line = p.lines().last().unwrap();
    let mut m = serde_json::Map::new();
    m.insert("name".into(), serde_json::Value::String(def.name.clone()));
    m.insert("description".into(), serde_json::Value::String(def.description.clone()));
    m.insert("parameters".into(), serde_json::Value::Object(serde_json::Map::new()));
    let expected = serde_json::to_string(&serde_json::Value::Object(m)).unwrap();
    assert_eq!(line, expected);
}

#[test]
fn generation_reply_cases() {
    let t = generation_reply(Ok("hi".to_string())).unwrap();
    assert_eq!(t.content.as_deref(), Some("hi"));
    assert!(t.tool_calls.is_empty());
    match generation_reply(Err(AgentError::msg("down"))) {
        Err(AgentError::Message(m)) => assert_eq!(m, "down"),
        Ok(_) => panic!("expected the error"),
    }
}
