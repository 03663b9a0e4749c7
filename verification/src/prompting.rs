//! Prompt assembly: simple templates and the harness context builder
//! (system prompt + windowed session history).

use vstd::prelude::*;

use crate::errors::AgentError;
use crate::session::{history_window, ChatMessage, ChatMessageView, Session};
use crate::text::{owned, trim_end, trim, trim_end_seq, trim_seq};

verus! {

/// `parts` joined with `sep` between neighbours.
pub open spec fn join_seq(parts: Seq<Seq<char>>, sep: Seq<char>) -> Seq<char>
    decreases parts.len(),
{
    if parts.len() == 0 {
        Seq::empty()
    } else if parts.len() == 1 {
        parts[0]
    } else {
        join_seq(parts.drop_last(), sep) + sep + parts.last()
    }
}

/// `parts` joined with `sep` between neighbours.
pub fn join_strings(parts: &[String], sep: &str) -> (r: String)
    ensures
        r@ == join_seq(parts.deep_view(), sep@),
{
    let ghost pv = parts.deep_view();
    let mut r = String::new();
    let n = parts.len();
    for i in 0..n
        invariant
            n == parts@.len(),
            pv == parts.deep_view(),
            r@ == join_seq(pv.take(i as int), sep@),
    {
        assert(pv.take(i + 1).drop_last() =~= pv.take(i as int));
        assert(pv.take(i + 1).last() == parts@[i as int]@);
        if i != 0 {
            r.append(sep);
        } else {
            assert(r@ =~= Seq::<char>::empty());
        }
        r.append(parts[i].as_str());
        if i == 0 {
            assert(r@ =~= parts@[0]@);
        }
    }
    assert(pv.take(n as int) =~= pv);
    r
}

/// A prompt template that can be filled with the current input.
#[derive(Debug, Clone)]
pub struct PromptTemplate {
    pub system: String,
    pub user_prefix: String,
}

/// Build a simple prompt: the system text without trailing whitespace, a newline,
/// the user prefix and the input.
pub fn build_prompt(template: &PromptTemplate, input: &str) -> (p: String)
    ensures
        p@ == trim_end_seq(template.system@) + "\n"@ + template.user_prefix@ + input@,
{
    let mut p = trim_end(template.system.as_str());
    p.append("\n");
    p.append(template.user_prefix.as_str());
    p.append(input);
    p
}

/// The names of the workspace files whose contents join the system prompt, in order.
pub open spec fn bootstrap_names() -> Seq<Seq<char>> {
    seq!["AGENTS.md"@, "SOUL.md"@, "USER.md"@, "TOOLS.md"@]
}

/// The workspace files whose contents join the system prompt, in order.
pub fn bootstrap_file_names() -> (names: Vec<String>)
    ensures
        names.deep_view() == bootstrap_names(),
{
    let mut names: Vec<String> = Vec::new();
    names.push(owned("AGENTS.md"));
    names.push(owned("SOUL.md"));
    names.push(owned("USER.md"));
    names.push(owned("TOOLS.md"));
    assert(names.deep_view() =~= bootstrap_names());
    names
}

/// One bootstrap section: `## <name>`, a blank line, then the file's text.
pub fn bootstrap_section(name: &str, text: &str) -> (s: String)
    ensures
        s@ == "## "@ + name@ + "\n\n"@ + text@,
{
    let mut s = owned("## ");
    s.append(name);
    s.append("\n\n");
    s.append(text);
    s
}

/// The bootstrap text: the sections of the files that were read, separated by blank lines.
pub fn join_bootstrap_sections(sections: &[String]) -> (s: String)
    ensures
        s@ == join_seq(sections.deep_view(), "\n\n"@),
{
    join_strings(sections, "\n\n")
}

/// One workspace bootstrap file: its name, and its text when it could be read.
#[derive(Debug, Clone)]
pub struct BootstrapFile {
    pub name: String,
    pub text: Option<String>,
}

impl View for BootstrapFile {
    type V = (Seq<char>, Option<Seq<char>>);

    open spec fn view(&self) -> (Seq<char>, Option<Seq<char>>) {
        (
            self.name@,
            match self.text {
                Some(t) => Some(t@),
                None => None,
            },
        )
    }
}

impl DeepView for BootstrapFile {
    type V = (Seq<char>, Option<Seq<char>>);

    open spec fn deep_view(&self) -> (Seq<char>, Option<Seq<char>>) {
        self@
    }
}

/// The sections of the files that were read, in order (see [`bootstrap_section`]).
pub open spec fn read_sections(files: Seq<(Seq<char>, Option<Seq<char>>)>) -> Seq<Seq<char>>
    decreases files.len(),
{
    if files.len() == 0 {
        Seq::empty()
    } else {
        let rest = read_sections(files.drop_last());
        match files.last().1 {
            Some(t) => rest.push("## "@ + files.last().0 + "\n\n"@ + t),
            None => rest,
        }
    }
}

/// The bootstrap text of the workspace files: the sections of those that were read,
/// separated by blank lines.
pub fn bootstrap_text(files: &[BootstrapFile]) -> (s: String)
    ensures
        s@ == join_seq(read_sections(files.deep_view()), "\n\n"@),
{
    let ghost fv = files.deep_view();
    let mut sections: Vec<String> = Vec::new();
    let n = files.len();
    for i in 0..n
        invariant
            n == files@.len(),
            fv == files.deep_view(),
            sections.deep_view() == read_sections(fv.take(i as int)),
    {
        assert(fv.take(i + 1).drop_last() =~= fv.take(i as int));
        assert(fv.take(i + 1).last() == files@[i as int]@);
        match &files[i].text {
            Some(t) => {
                let sec = bootstrap_section(files[i].name.as_str(), t.as_str());
                let ghost before = sections.deep_view();
                sections.push(sec);
                assert(sections.deep_view() =~= before.push(sec@));
            },
            None => {},
        }
    }
    assert(fv.take(n as int) =~= fv);
    join_bootstrap_sections(sections.as_slice())
}

/// System prompt and model history for one model call.
#[derive(Debug, Clone)]
pub struct BuiltContext {
    pub system: String,
    pub history: Vec<ChatMessage>,
}

/// The separator between system prompt sections.
pub open spec fn section_sep() -> Seq<char> {
    "\n\n---\n\n"@
}

/// The identity section of the system prompt.
pub open spec fn identity_text(workspace: Option<Seq<char>>) -> Seq<char> {
    let note = match workspace {
        Some(w) => "Workspace: "@ + w,
        None => "No workspace configured."@,
    };
    "# llmos harness\n\nYou are an assistant running on the llmos server.\n\n"@ + note + "\n"@
}

/// The system prompt: the identity, then the bootstrap text when there is any.
pub open spec fn system_prompt_text(workspace: Option<Seq<char>>, bootstrap: Seq<char>) -> Seq<char> {
    if bootstrap.len() == 0 {
        identity_text(workspace)
    } else {
        identity_text(workspace) + section_sep() + bootstrap
    }
}

/// `system` with the runtime note appended (unless the note is blank).
pub open spec fn with_runtime_note(system: Seq<char>, note: Seq<char>) -> Seq<char> {
    if trim_seq(note).len() == 0 {
        system
    } else {
        system + "\n\n---\n\n## Runtime (metadata)\n\n"@ + trim_seq(note)
    }
}

/// Builds system text from the workspace bootstrap and trims session history.
#[derive(Debug, Clone)]
pub struct ContextBuilder {
    workspace: Option<String>,
    max_history_messages: usize,
}

impl ContextBuilder {
    /// The workspace directory, if one is configured.
    pub closed spec fn workspace_view(&self) -> Option<Seq<char>> {
        match self.workspace {
            Some(w) => Some(w@),
            None => None,
        }
    }

    /// How many recent messages the history may hold at most.
    pub closed spec fn max_history(&self) -> nat {
        self.max_history_messages as nat
    }

    pub fn new(workspace: Option<String>, max_history_messages: usize) -> (c: ContextBuilder)
        ensures
            c.workspace_view() == (match workspace {
                Some(w) => Some(w@),
                None => None::<Seq<char>>,
            }),
            c.max_history() == max_history_messages,
    {
        ContextBuilder { workspace, max_history_messages }
    }

    pub fn with_workspace_dir(root: &str) -> (c: ContextBuilder)
        ensures
            c.workspace_view() == Some(root@),
            c.max_history() == 64,
    {
        ContextBuilder { workspace: Some(owned(root)), max_history_messages: 64 }
    }

    /// The workspace directory, if one is configured.
    pub fn workspace(&self) -> (w: Option<&str>)
        ensures
            match w {
                Some(s) => self.workspace_view() == Some(s@),
                None => self.workspace_view() is None,
            },
    {
        match &self.workspace {
            Some(s) => Some(s.as_str()),
            None => None,
        }
    }

    fn base_identity(&self) -> (s: String)
        ensures
            s@ == identity_text(self.workspace_view()),
    {
        let mut s = owned("# llmos harness\n\nYou are an assistant running on the llmos server.\n\n");
        match &self.workspace {
            Some(w) => {
                s.append("Workspace: ");
                s.append(w.as_str());
            },
            None => {
                s.append("No workspace configured.");
            },
        }
        s.append("\n");
        s
    }

    /// The system prompt for the given bootstrap text (the joined workspace files;
    /// empty when no workspace is configured or none of its files could be read).
    pub fn build_system_prompt(&self, bootstrap: &str) -> (s: String)
        ensures
            s@ == system_prompt_text(self.workspace_view(), bootstrap@),
    {
        let mut s = self.base_identity();
        if !bootstrap.is_empty() {
            s.append("\n\n---\n\n");
            s.append(bootstrap);
        }
        s
    }

    /// Build system prompt and model history from the session.
    pub fn build_for_session(&self, session: &Session, bootstrap: &str) -> (r: Result<BuiltContext, AgentError>)
        ensures
            r matches Ok(b) && b.system@ == system_prompt_text(self.workspace_view(), bootstrap@)
                && b.history.deep_view() == history_window(session@, self.max_history()),
    {
        let system = self.build_system_prompt(bootstrap);
        let history = session.get_history_for_model(self.max_history_messages);
        Ok(BuiltContext { system, history })
    }
}

impl Default for ContextBuilder {
    fn default() -> (c: ContextBuilder)
        ensures
            c.workspace_view() is None,
            c.max_history() == 64,
    {
        ContextBuilder { workspace: None, max_history_messages: 64 }
    }
}

impl BuiltContext {
    /// Append a runtime metadata section to the system prompt (blank notes add nothing).
    pub fn inject_runtime_note(&mut self, note: &str)
        ensures
            final(self).system@ == with_runtime_note(old(self).system@, note@),
            final(self).history == old(self).history,
    {
        let t = trim(note);
        if t.as_str().is_empty() {
            return;
        }
        self.system.append("\n\n---\n\n## Runtime (metadata)\n\n");
        self.system.append(t.as_str());
    }
}

} // verus!
