use llmos::background::{hub_permits, job_label, plan_background_call, plan_background_job, queued_reply};
use llmos::browser::{browser_payload, browser_reply, is_allowed_url, require_browser_script, BrowserAutomationTool, BrowserRequest};
use llmos::daemon::{health_url, is_truthy, reads_stdin};
use llmos::prompting::{
    bootstrap_text, BootstrapFile,
    bootstrap_file_names, bootstrap_section, build_prompt, join_bootstrap_sections, ContextBuilder, PromptTemplate,
};
use llmos::scheduler::{parse_schedule, schedule_error, wait_nanos};
use llmos::session::{ChatMessage, Session};
use llmos::text::{contains_str, decimal_string, signed_decimal_string, trim};

#[test]
fn background_jobs() {
    assert_eq!(hub_permits(0), 1);
    assert_eq!(hub_permits(32), 32);
    let j = plan_background_job(Some("sleep_log"), None, Some(-5), None).unwrap();
    assert_eq!(j.seconds, 0);
    assert_eq!(j.message, "background_job");
    let j2 = plan_background_job(Some("sleep_log"), Some(9000), None, Some("hi")).unwrap();
    assert_eq!(j2.seconds, 600);
    assert_eq!(j2.message, "hi");
    assert_eq!(job_label(&j2), "sleep_log:600s");
    let j3 = plan_background_job(Some("sleep_log"), None, Some(42), None).unwrap();
    assert_eq!(j3.seconds, 42);
    assert_eq!(plan_background_job(None, None, None, None).unwrap_err().to_text(), "agent error: missing op");
    assert_eq!(plan_background_job(Some("dance"), None, None, None).unwrap_err().to_text(), "agent error: unknown op: dance");
    assert_eq!(queued_reply(), r#"{"queued":true,"op":"sleep_log"}"#);
}

#[test]
fn browser_urls_and_arguments() {
    assert!(is_allowed_url("  https://example.com "));
    assert!(is_allowed_url("http://localhost:3000"));
    assert!(is_allowed_url("http://127.0.0.1/x"));
    assert!(!is_allowed_url("http://example.com"));
    assert!(!is_allowed_url("file:///etc/passwd"));
    let t = BrowserAutomationTool::new(None);
    assert_eq!(t.plan_call(None, Some("https://a")).unwrap_err().to_text(), "agent error: missing action");
    assert_eq!(t.plan_call(Some("goto"), None).unwrap_err().to_text(), "agent error: missing url");
    assert_eq!(
        t.plan_call(Some("goto"), Some("ftp://x")).unwrap_err().to_text(),
        "agent error: url must be https:// or http://localhost / 127.0.0.1"
    );
    let req = t.plan_call(Some("goto"), Some("https://a")).unwrap();
    assert_eq!(browser_payload(&req), r#"{"action":"goto","url":"https://a"}"#);
    let q = BrowserRequest { action: "go\"to".into(), url: "u".into() };
    assert_eq!(
        browser_payload(&q),
        {
            let mut m = serde_json::Map::new();
            m.insert("action".into(), serde_json::Value::String(q.action.clone()));
            m.insert("url".into(), serde_json::Value::String(q.url.clone()));
            serde_json::to_string(&serde_json::Value::Object(m)).unwrap()
        }
    );
}

#[test]
fn browser_script_location() {
    let none = BrowserAutomationTool::new(None);
    assert_eq!(none.script_candidate("/abs/s.js").unwrap(), "/abs/s.js");
    assert!(none.script_candidate("rel.js").is_err());
    assert!(none.check_script_location("/anything", "").is_ok());
    let ws = BrowserAutomationTool::new(Some("/ws".into()));
    assert_eq!(ws.script_candidate("s/x.js").unwrap(), "/ws/s/x.js");
    let ws2 = BrowserAutomationTool::new(Some("/ws/".into()));
    assert_eq!(ws2.script_candidate("x.js").unwrap(), "/ws/x.js");
    assert!(ws.check_script_location("/ws/s/x.js", "/ws").is_ok());
    assert!(ws.check_script_location("/ws", "/ws").is_ok());
    assert_eq!(
        ws.check_script_location("/wsx/s.js", "/ws").unwrap_err().to_text(),
        "agent error: browser script must live under LLMOS_WORKSPACE"
    );
    assert!(ws.check_script_location("/x", "/").is_ok());
    assert!(require_browser_script(None).is_err());
    assert_eq!(require_browser_script(Some("a.js".into())).unwrap(), "a.js");
}

#[test]
fn browser_replies() {
    assert_eq!(browser_reply(true, Some(0), "  \n", "").unwrap(), r#"{"ok":true}"#);
    assert_eq!(browser_reply(true, Some(0), " {\"r\":1}\n", "").unwrap(), "{\"r\":1}");
    assert_eq!(
        browser_reply(false, Some(-2), "", "oops").unwrap_err().to_text(),
        "agent error: browser script failed (status Some(-2)): oops"
    );
    assert_eq!(
        browser_reply(false, None, "", "killed").unwrap_err().to_text(),
        "agent error: browser script failed (status None): killed"
    );
}

#[test]
fn daemon_settings() {
    assert!(is_truthy(" 1 "));
    assert!(is_truthy("TRUE"));
    assert!(is_truthy("yes"));
    assert!(is_truthy("on"));
    assert!(!is_truthy("YES"));
    assert!(!is_truthy("0"));
    assert!(reads_stdin("-"));
    assert!(!reads_stdin("--"));
    assert_eq!(health_url("http://127.0.0.1:8080//"), "http://127.0.0.1:8080/health");
    assert_eq!(health_url("http://h"), "http://h/health");
}

#[test]
fn prompting_pieces() {
    let t = PromptTemplate { system: "You help.  \n".into(), user_prefix: "User: ".into() };
    assert_eq!(build_prompt(&t, "hi"), "You help.\nUser: hi");
    assert_eq!(bootstrap_file_names(), vec!["AGENTS.md", "SOUL.md", "USER.md", "TOOLS.md"]);
    let a = bootstrap_section("AGENTS.md", "be kind");
    assert_eq!(a, "## AGENTS.md\n\nbe kind");
    assert_eq!(join_bootstrap_sections(&[a.clone(), "## SOUL.md\n\ncalm".into()]), "## AGENTS.md\n\nbe kind\n\n## SOUL.md\n\ncalm");
    let c = ContextBuilder::default();
    assert_eq!(
        c.build_system_prompt(""),
        "# llmos harness\n\nYou are an assistant running on the llmos server.\n\nNo workspace configured.\n"
    );
    let w = ContextBuilder::with_workspace_dir("/srv/ws");
    assert_eq!(
        w.build_system_prompt("BOOT"),
        "# llmos harness\n\nYou are an assistant running on the llmos server.\n\nWorkspace: /srv/ws\n\n\n---\n\nBOOT"
    );
    let mut s = Session::default();
    s.push(ChatMessage::user("u"));
    let mut built = ContextBuilder::new(None, 1).build_for_session(&s, "").unwrap();
    assert_eq!(built.history.len(), 1);
    built.inject_runtime_note("   ");
    assert!(!built.system.contains("Runtime"));
    built.inject_runtime_note("  k=v \n");
    assert!(built.system.ends_with("\n\n---\n\n## Runtime (metadata)\n\nk=v"));
}

#[test]
fn cron_schedules() {
    assert!(parse_schedule("0 */10 * * * *").is_ok());
    let e = parse_schedule("not cron").unwrap_err();
    assert!(e.to_text().starts_with("agent error: invalid cron \"not cron\": "));
    assert!(e.to_text().len() > "agent error: invalid cron \"not cron\": ".len());
    assert_eq!(wait_nanos(1_000, 2_000), 200_000_000);
    assert_eq!(wait_nanos(5_000_000_123, 2_000_000_000), 3_000_000_123);
    assert_eq!(wait_nanos(2_000, 2_000), 0);
}

#[test]
fn text_helpers() {
    assert_eq!(trim("\u{3000} a b\t"), "a b");
    assert!(contains_str("agent error: tool x is not authorized", "not authorized"));
    assert!(!contains_str("abc", "abd"));
    assert!(contains_str("abc", ""));
    assert_eq!(decimal_string(0), "0");
    assert_eq!(decimal_string(1203), "1203");
    assert_eq!(signed_decimal_string(i64::MIN), i64::MIN.to_string());
    assert_eq!(signed_decimal_string(-7), "-7");
}

#[test]
fn schedule_error_text() {
    let e = schedule_error("a \"b\"", "bad field");
    assert_eq!(e.to_text(), "agent error: invalid cron \"a \\\"b\\\"\": bad field");
}

#[test]
fn bootstrap_text_joins_read_files() {
    let files = vec![
        BootstrapFile { name: "AGENTS.md".into(), text: Some("a".into()) },
        BootstrapFile { name: "SOUL.md".into(), text: None },
        BootstrapFile { name: "USER.md".into(), text: Some("u".into()) },
    ];
    assert_eq!(bootstrap_text(&files), "## AGENTS.md\n\na\n\n## USER.md\n\nu");
    assert_eq!(bootstrap_text(&[]), "");
}

#[test]
fn background_call_reads_its_arguments() {
    let j = plan_background_call(r#"{"op":"sleep_log","seconds":7,"message":"hi"}"#).unwrap();
    assert_eq!(j.seconds, 7);
    assert_eq!(j.message, "hi");
    let j2 = plan_background_call(r#"{"op":"sleep_log","seconds":-3}"#).unwrap();
    assert_eq!(j2.seconds, 0);
    assert_eq!(j2.message, "background_job");
    let j3 = plan_background_call(r#"{"op":"sleep_log","seconds":100000}"#).unwrap();
    assert_eq!(j3.seconds, 600);
    assert_eq!(plan_background_call("{}").unwrap_err().to_text(), "agent error: missing op");
    assert_eq!(plan_background_call(r#"{"op":7}"#).unwrap_err().to_text(), "agent error: missing op");
    assert_eq!(
        plan_background_call(r#"{"op":"fly"}"#).unwrap_err().to_text(),
        "agent error: unknown op: fly"
    );
}

#[test]
fn browser_call_reads_its_arguments() {
    let t = BrowserAutomationTool::new(None);
    let req = t.plan_browser_call(r#"{"action":"goto","url":"https://a"}"#).unwrap();
    assert_eq!(req.action, "goto");
    assert_eq!(req.url, "https://a");
    assert_eq!(t.plan_browser_call(r#"{"url":"https://a"}"#).unwrap_err().to_text(), "agent error: missing action");
    assert_eq!(t.plan_browser_call(r#"{"action":"goto"}"#).unwrap_err().to_text(), "agent error: missing url");
    assert_eq!(
        t.plan_browser_call(r#"{"action":"goto","url":"http://evil"}"#).unwrap_err().to_text(),
        "agent error: url must be https:// or http://localhost / 127.0.0.1"
    );
}
