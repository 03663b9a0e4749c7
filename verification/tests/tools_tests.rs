use llmos::errors::AgentError;
use llmos::json::{parse_tool_arguments, tool_json_error};
use llmos::policy::ToolPolicy;
use llmos::tools::{ExternalTool, PingTool, SchemaTool, Tool, ToolRegistry, ToolRunner};

fn json(text: &str) -> serde_json::Value {
    serde_json::from_str(text).unwrap()
}

struct Runs(&'static str);

impl ToolRunner for Runs {
    fn run(&self, _args: &serde_json::Value) -> Result<String, AgentError> {
        Ok(format!("ran {}", self.0))
    }
}

fn named(name: &'static str) -> ExternalTool {
    ExternalTool::new(name, "desc", "{}", Box::new(Runs(name)))
}

#[test]
fn policy_defaults_and_requests() {
    let d = ToolPolicy::default();
    assert_eq!(d.allowed_names(), &["ping".to_string(), "background_job".to_string(), "browser".to_string()]);
    assert!(d.allows("ping"));
    assert!(!d.allows("shell"));
    let none = ToolPolicy::new(vec![]);
    assert!(!none.allows("ping"));
    let p = ToolPolicy::for_request(&[], &d);
    assert_eq!(p.allowed_names().len(), 3);
    let q = ToolPolicy::for_request(&["shell".to_string()], &d);
    assert!(q.allows("shell"));
    assert!(!q.allows("ping"));
}

#[test]
fn ping_tool_answers_pong() {
    let t = PingTool;
    assert_eq!(SchemaTool::name(&t), "ping");
    assert_eq!(t.description(), "Health check. No parameters.");
    assert_eq!(t.call("anything").unwrap(), "pong");
    assert_eq!(t.call_json(&json("{\"x\": 1}")).unwrap(), "pong");
    let schema: serde_json::Value = serde_json::from_str(&t.parameters_schema()).unwrap();
    assert_eq!(schema, json("{\"type\": \"object\", \"properties\": {}, \"additionalProperties\": false}"));
    assert_eq!(t.parameters_schema(), serde_json::to_string(&schema).unwrap());
}

#[test]
fn registry_lists_sorted_and_filters_by_policy() {
    let mut r = ToolRegistry::new();
    r.register(Box::new(named("zeta")));
    r.register(Box::new(named("alpha")));
    r.register(Box::new(PingTool));
    r.register(Box::new(named("alpha")));
    assert_eq!(r.names(), vec!["alpha".to_string(), "ping".to_string(), "zeta".to_string()]);
    let policy = ToolPolicy::new(vec!["zeta".into(), "ping".into(), "nope".into()]);
    let defs = r.definitions_for_policy(&policy);
    let names: Vec<&str> = defs.iter().map(|d| d.name.as_str()).collect();
    assert_eq!(names, vec!["ping", "zeta"]);
    assert_eq!(defs[1].description, "desc");
    assert!(r.get("alpha").is_some());
    assert!(r.get("beta").is_none());
}

#[test]
fn registry_executes_by_name() {
    let mut r = ToolRegistry::default();
    r.register(Box::new(named("alpha")));
    let args = json("{}");
    assert_eq!(r.execute_json("alpha", &args).unwrap(), "ran alpha");
    let e = r.execute_json("beta", &args).unwrap_err();
    assert_eq!(e.to_text(), "agent error: unknown tool: beta");
}

#[test]
fn parse_tool_arguments_cases() {
    assert_eq!(parse_tool_arguments("  ").unwrap(), json("{}"));
    assert_eq!(parse_tool_arguments("{\"a\": 1}").unwrap(), json("{\"a\":1}"));
    assert_eq!(parse_tool_arguments(" [1] ").unwrap(), json("[1]"));
    let e = parse_tool_arguments("{oops").unwrap_err();
    assert!(e.to_text().starts_with("agent error: invalid tool JSON: "));
    assert!(e.to_text().len() > "agent error: invalid tool JSON: ".len());
}

#[test]
fn tool_json_error_text() {
    match tool_json_error("EOF while parsing") {
        AgentError::Message(m) => assert_eq!(m, "invalid tool JSON: EOF while parsing"),
    }
}

#[test]
fn external_tool_reports_its_fixed_parts() {
    let t = named("alpha");
    assert_eq!(t.name(), "alpha");
    assert_eq!(t.description(), "desc");
    assert_eq!(t.parameters_schema(), "{}");
    assert_eq!(t.call_json(&json("{}")).unwrap(), "ran alpha");
}

#[test]
fn registering_a_name_again_replaces_its_tool() {
    let mut r = ToolRegistry::new();
    r.register(Box::new(ExternalTool::new("alpha", "first", "{}", Box::new(Runs("first")))));
    r.register(Box::new(named("beta")));
    r.register_boxed(Box::new(ExternalTool::new("alpha", "second", "{\"type\":\"object\"}", Box::new(Runs("second")))));
    assert_eq!(r.names(), vec!["alpha".to_string(), "beta".to_string()]);
    assert_eq!(r.get("alpha").unwrap().description(), "second");
    assert_eq!(r.get("beta").unwrap().description(), "desc");
    let args = json("{}");
    assert_eq!(r.execute_json("alpha", &args).unwrap(), "ran second");
    assert_eq!(r.execute_json("beta", &args).unwrap(), "ran beta");
    let defs = r.definitions_for_policy(&ToolPolicy::new(vec!["alpha".into()]));
    assert_eq!(defs.len(), 1);
    assert_eq!(defs[0].name, "alpha");
    assert_eq!(defs[0].description, "second");
    assert_eq!(defs[0].parameters, "{\"type\":\"object\"}");
}

#[test]
fn ping_definition_carries_its_schema() {
    let mut r = ToolRegistry::new();
    r.register(Box::new(PingTool));
    let defs = r.definitions_for_policy(&ToolPolicy::default());
    assert_eq!(defs.len(), 1);
    assert_eq!(defs[0].name, "ping");
    assert_eq!(defs[0].description, "Health check. No parameters.");
    assert_eq!(defs[0].parameters, PingTool.parameters_schema());
    assert_eq!(r.execute_json("ping", &json("{\"ignored\": true}")).unwrap(), "pong");
}
