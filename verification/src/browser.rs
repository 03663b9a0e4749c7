//! The `browser` tool's decisions: which URLs it may open, where its driver script
//! may live, what it sends the script, and how the script's exit turns into a reply.
//! Spawning the script is left to the caller.

use vstd::prelude::*;

use crate::errors::AgentError;
use crate::json::{json_str_field, json_string_object, json_string_object_text, read_str_field};
use crate::text::{has_prefix, owned, signed_decimal, signed_decimal_string, starts_with, trim, trim_seq};

verus! {

/// The URL may be opened: after trimming it starts with `https://`,
/// `http://localhost` or `http://127.0.0.1`.
pub open spec fn url_allowed(url: Seq<char>) -> bool {
    let u = trim_seq(url);
    has_prefix(u, "https://"@) || has_prefix(u, "http://localhost"@) || has_prefix(u, "http://127.0.0.1"@)
}

/// Whether the browser tool may open `url`.
pub fn is_allowed_url(url: &str) -> (b: bool)
    ensures
        b == url_allowed(url@),
{
    let u = trim(url);
    starts_with(u.as_str(), "https://") || starts_with(u.as_str(), "http://localhost") || starts_with(
        u.as_str(),
        "http://127.0.0.1",
    )
}

/// A path is absolute when it starts at the root.
pub open spec fn path_is_absolute(p: Seq<char>) -> bool {
    p.len() > 0 && p[0] == '/'
}

/// `rel` resolved against `base` as `Path::join` does: an absolute `rel` stands alone,
/// otherwise a separator goes between them unless `base` is empty or ends in one.
pub open spec fn path_join(base: Seq<char>, rel: Seq<char>) -> Seq<char> {
    if path_is_absolute(rel) {
        rel
    } else if base.len() == 0 || base.last() == '/' {
        base + rel
    } else {
        base + "/"@ + rel
    }
}

/// For canonical paths (absolute, no trailing separator unless the root, no empty or
/// dot components), `path` lies at or under `base`, component by component.
pub open spec fn canonical_within(path: Seq<char>, base: Seq<char>) -> bool {
    ||| path == base
    ||| base == "/"@ && path_is_absolute(path)
    ||| has_prefix(path, base + "/"@)
}

/// What a `browser` call with these arguments comes to: the action and URL to send the
/// script, or the error message.
pub open spec fn browser_plan(action: Option<Seq<char>>, url: Option<Seq<char>>) -> Result<(Seq<char>, Seq<char>), Seq<char>> {
    match action {
        None => Err("missing action"@),
        Some(a) => match url {
            None => Err("missing url"@),
            Some(u) => if url_allowed(u) {
                Ok((a, u))
            } else {
                Err("url must be https:// or http://localhost / 127.0.0.1"@)
            },
        },
    }
}

/// A planned request as plain values: its action and URL, or the error message.
pub open spec fn request_outcome(r: Result<BrowserRequest, AgentError>) -> Result<(Seq<char>, Seq<char>), Seq<char>> {
    match r {
        Ok(req) => Ok((req.action@, req.url@)),
        Err(e) => Err(e.message()),
    }
}

/// What the browser tool sends its script and then opens.
#[derive(Debug, Clone)]
pub struct BrowserRequest {
    pub action: String,
    pub url: String,
}

/// Runs a configured driver script (Playwright/Node) for browser actions.
#[derive(Debug, Clone)]
pub struct BrowserAutomationTool {
    workspace: Option<String>,
}

impl BrowserAutomationTool {
    /// The workspace the script must live under, if any.
    pub closed spec fn workspace_view(&self) -> Option<Seq<char>> {
        match self.workspace {
            Some(w) => Some(w@),
            None => None,
        }
    }

    pub fn new(workspace: Option<String>) -> (t: BrowserAutomationTool)
        ensures
            t.workspace_view() == (match workspace {
                Some(w) => Some(w@),
                None => None::<Seq<char>>,
            }),
    {
        BrowserAutomationTool { workspace }
    }

    /// The workspace directory, if one is configured.
    pub fn workspace(&self) -> (w: Option<&str>)
        ensures
            match w {
                Some(s) => self.workspace_view() == Some(s@),
                None => self.workspace_view() is None,
            },
    {
        match &self.workspace {
            Some(s) => Some(s.as_str()),
            None => None,
        }
    }

    /// Check a call's arguments: `action` and `url` must be present (in that order) and
    /// the URL allowed.
    pub fn plan_call(&self, action: Option<&str>, url: Option<&str>) -> (r: Result<BrowserRequest, AgentError>)
        ensures
            action is None ==> (r matches Err(e) && e.message() == "missing action"@),
            action is Some && url is None ==> (r matches Err(e) && e.message() == "missing url"@),
            action is Some && url is Some ==> (if url_allowed(url->0@) {
                r matches Ok(req) && req.action@ == action->0@ && req.url@ == url->0@
            } else {
                r matches Err(e) && e.message() == "url must be https:// or http://localhost / 127.0.0.1"@
            }),
    {
        let a = match action {
            None => {
                return Err(AgentError::msg("missing action"));
            },
            Some(a) => a,
        };
        let u = match url {
            None => {
                return Err(AgentError::msg("missing url"));
            },
            Some(u) => u,
        };
        if !is_allowed_url(u) {
            return Err(AgentError::msg("url must be https:// or http://localhost / 127.0.0.1"));
        }
        Ok(BrowserRequest { action: owned(a), url: owned(u) })
    }

    /// Check the argument text of a call: `action` and `url` are read from the JSON
    /// object the text holds and checked as [`BrowserAutomationTool::plan_call`] does.
    pub fn plan_browser_call(&self, args_json: &str) -> (r: Result<BrowserRequest, AgentError>)
        ensures
            request_outcome(r) == browser_plan(json_str_field(args_json@, "action"@), json_str_field(args_json@, "url"@)),
    {
        let action = read_str_field(args_json, "action");
        let url = read_str_field(args_json, "url");
        let action_ref: Option<&str> = match &action {
            Some(a) => Some(a.as_str()),
            None => None,
        };
        let url_ref: Option<&str> = match &url {
            Some(u) => Some(u.as_str()),
            None => None,
        };
        self.plan_call(action_ref, url_ref)
    }

    /// The script path before canonicalization: an absolute setting as is, a relative one
    /// under the workspace; a relative setting without a workspace is refused.
    pub fn script_candidate(&self, raw: &str) -> (r: Result<String, AgentError>)
        ensures
            path_is_absolute(raw@) ==> (r matches Ok(p) && p@ == raw@),
            !path_is_absolute(raw@) ==> match self.workspace_view() {
                Some(w) => r matches Ok(p) && p@ == path_join(w, raw@),
                None => r matches Err(e) && e.message() == "relative LLMOS_BROWSER_SCRIPT requires LLMOS_WORKSPACE"@,
            },
    {
        if starts_with(raw, "/") {
            proof {
                reveal_strlit("/");
                assert(raw@.subrange(0, 1)[0] == raw@[0]);
            }
            return Ok(owned(raw));
        }
        proof {
            reveal_strlit("/");
            if path_is_absolute(raw@) {
                assert(raw@.subrange(0, 1) =~= "/"@);
            }
        }
        match &self.workspace {
            None => Err(AgentError::msg("relative LLMOS_BROWSER_SCRIPT requires LLMOS_WORKSPACE")),
            Some(w) => {
                let n = w.as_str().unicode_len();
                let mut p = w.clone();
                if n == 0 || w.as_str().get_char(n - 1) == '/' {
                    p.append(raw);
                } else {
                    p.append("/");
                    p.append(raw);
                }
                Ok(p)
            },
        }
    }

    /// With a workspace, the canonical script path must lie under the canonical
    /// workspace path; without one any script is accepted.
    pub fn check_script_location(&self, canonical_script: &str, canonical_workspace: &str) -> (r: Result<(), AgentError>)
        ensures
            self.workspace_view() is None ==> r is Ok,
            self.workspace_view() is Some ==> (r is Ok <==> canonical_within(canonical_script@, canonical_workspace@)),
            r matches Err(e) ==> e.message() == "browser script must live under LLMOS_WORKSPACE"@,
    {
        if self.workspace.is_none() {
            return Ok(());
        }
        let inside = if crate::text::str_eq(canonical_script, canonical_workspace) {
            true
        } else if crate::text::str_eq(canonical_workspace, "/") {
            starts_with(canonical_script, "/")
        } else {
            let mut prefix = owned(canonical_workspace);
            prefix.append("/");
            starts_with(canonical_script, prefix.as_str())
        };
        proof {
            reveal_strlit("/");
            if canonical_workspace@ == "/"@ {
                if path_is_absolute(canonical_script@) {
                    assert(canonical_script@.subrange(0, 1) =~= "/"@);
                }
                if has_prefix(canonical_script@, "/"@) {
                    assert(canonical_script@.subrange(0, 1)[0] == canonical_script@[0]);
                }
                if has_prefix(canonical_script@, canonical_workspace@ + "/"@) {
                    assert(canonical_script@.subrange(0, 2)[0] == canonical_script@[0]);
                    assert((canonical_workspace@ + "/"@)[0] == '/');
                }
            }
        }
        if inside {
            Ok(())
        } else {
            Err(AgentError::msg("browser script must live under LLMOS_WORKSPACE"))
        }
    }
}

impl Default for BrowserAutomationTool {
    fn default() -> (t: BrowserAutomationTool)
        ensures
            t.workspace_view() is None,
    {
        BrowserAutomationTool { workspace: None }
    }
}

/// The configured script path, or the error that the tool is disabled.
pub fn require_browser_script(setting: Option<String>) -> (r: Result<String, AgentError>)
    ensures
        match setting {
            Some(s) => r matches Ok(p) && p@ == s@,
            None => r matches Err(e) && e.message() == "browser automation disabled: set LLMOS_BROWSER_SCRIPT"@,
        },
{
    match setting {
        Some(s) => Ok(s),
        None => Err(AgentError::msg("browser automation disabled: set LLMOS_BROWSER_SCRIPT")),
    }
}

/// The JSON line sent to the script: the object `{"action": <action>, "url": <url>}`
/// as `serde_json` writes it.
pub fn browser_payload(req: &BrowserRequest) -> (s: String)
    ensures
        s@ == json_string_object(seq![("action"@, req.action@), ("url"@, req.url@)]),
{
    let mut entries: Vec<(String, String)> = Vec::new();
    entries.push((owned("action"), req.action.clone()));
    entries.push((owned("url"), req.url.clone()));
    assert(entries.deep_view() =~= seq![("action"@, req.action@), ("url"@, req.url@)]);
    match json_string_object_text(entries.as_slice()) {
        Ok(t) => t,
        Err(_) => String::new(),
    }
}

/// How `{:?}` writes an optional exit code: `Some(<n>)` or `None`.
pub open spec fn exit_code_text(code: Option<i32>) -> Seq<char> {
    match code {
        Some(n) => "Some("@ + signed_decimal(n as int) + ")"@,
        None => "None"@,
    }
}

/// The tool's reply from the script's exit: a failure reports the exit code and the
/// error output; otherwise the trimmed output, or `{"ok":true}` when it is blank.
pub fn browser_reply(success: bool, code: Option<i32>, stdout: &str, stderr: &str) -> (r: Result<String, AgentError>)
    ensures
        !success ==> (r matches Err(e) && e.message() == "browser script failed (status "@ + exit_code_text(code)
            + "): "@ + stderr@),
        success && trim_seq(stdout@).len() == 0 ==> (r matches Ok(t) && t@ == "{\"ok\":true}"@),
        success && trim_seq(stdout@).len() != 0 ==> (r matches Ok(t) && t@ == trim_seq(stdout@)),
{
    if !success {
        let mut m = owned("browser script failed (status ");
        match code {
            Some(n) => {
                m.append("Some(");
                let d = signed_decimal_string(n as i64);
                m.append(d.as_str());
                m.append(")");
            },
            None => {
                m.append("None");
            },
        }
        m.append("): ");
        m.append(stderr);
        return Err(AgentError::msg(m.as_str()));
    }
    let text = trim(stdout);
    if text.as_str().is_empty() {
        Ok(owned("{\"ok\":true}"))
    } else {
        Ok(text)
    }
}

} // verus!
