//! Model interfaces: plain text generation, and multi-turn chat with tool calling
//! used by the harness loop, with the built-in development models.

use vstd::prelude::*;

use crate::errors::AgentError;
use crate::json::{json_text_parses, json_tool_object, json_tool_object_text};
use crate::prompting::BuiltContext;
use crate::session::{ChatMessage, ChatMessageView, ChatRole, ToolCallRecordView};
use crate::text::{eq_ignore_ascii_case, eq_ignore_ascii_case_seq, owned, str_eq, trim, trim_seq};
use crate::tools::{ToolDefinition, ToolDefinitionView};

verus! {

/// A text-generation model (LLM or similar).
pub trait Model: Send + Sync {
    fn generate(&self, prompt: &str) -> Result<String, AgentError>;
}

/// Placeholder model for wiring. Always returns an error.
#[derive(Debug, Clone)]
pub struct UnconfiguredModel;

impl Default for UnconfiguredModel {
    fn default() -> (m: UnconfiguredModel) {
        UnconfiguredModel
    }
}

impl Model for UnconfiguredModel {
    fn generate(&self, prompt: &str) -> (r: Result<String, AgentError>)
        ensures
            r matches Err(e) && e.message() == "model is not configured"@,
    {
        Err(AgentError::msg("model is not configured"))
    }
}

/// One model-emitted tool call.
#[derive(Debug, Clone, PartialEq, Eq)]
pub struct ModelToolCall {
    pub id: String,
    pub name: String,
    pub arguments_json: String,
}

impl View for ModelToolCall {
    type V = ToolCallRecordView;

    open spec fn view(&self) -> ToolCallRecordView {
        ToolCallRecordView { id: self.id@, name: self.name@, arguments_json: self.arguments_json@ }
    }
}

impl DeepView for ModelToolCall {
    type V = ToolCallRecordView;

    open spec fn deep_view(&self) -> ToolCallRecordView {
        self@
    }
}

/// Mathematical model of an [`AssistantTurn`].
pub struct AssistantTurnView {
    pub content: Option<Seq<char>>,
    pub tool_calls: Seq<ToolCallRecordView>,
}

/// One assistant generation from the model.
#[derive(Debug, Clone, PartialEq, Eq)]
pub struct AssistantTurn {
    pub content: Option<String>,
    pub tool_calls: Vec<ModelToolCall>,
}

impl View for AssistantTurn {
    type V = AssistantTurnView;

    open spec fn view(&self) -> AssistantTurnView {
        AssistantTurnView {
            content: match self.content {
                Some(c) => Some(c@),
                None => None,
            },
            tool_calls: self.tool_calls.deep_view(),
        }
    }
}

impl DeepView for AssistantTurn {
    type V = AssistantTurnView;

    open spec fn deep_view(&self) -> AssistantTurnView {
        self@
    }
}

/// A turn with text and no tool calls.
pub open spec fn text_turn(text: Seq<char>) -> AssistantTurnView {
    AssistantTurnView { content: Some(text), tool_calls: Seq::empty() }
}

fn text_reply(text: String) -> (t: AssistantTurn)
    ensures
        t@ == text_turn(text@),
{
    let t = AssistantTurn { content: Some(text), tool_calls: Vec::new() };
    assert(t@.tool_calls =~= Seq::<ToolCallRecordView>::empty());
    t
}

/// Chat models used by the server-side agent loop. A model may keep state
/// between calls (a scripted model advances through its script).
pub trait ChatModel: Send + Sync {
    fn chat(&mut self, context: &BuiltContext, tools: &[ToolDefinition]) -> Result<AssistantTurn, AgentError>;
}

impl ChatModel for Box<dyn ChatModel> {
    /// Hands the call on to the boxed model.
    fn chat(&mut self, context: &BuiltContext, tools: &[ToolDefinition]) -> (r: Result<AssistantTurn, AgentError>) {
        (**self).chat(context, tools)
    }
}

/// `i` is the position of the last user message of `h`.
pub open spec fn is_last_user(h: Seq<ChatMessageView>, i: int) -> bool {
    &&& 0 <= i < h.len()
    &&& h[i].role == ChatRole::User
    &&& forall|j: int| i < j < h.len() ==> #[trigger] h[j].role != ChatRole::User
}

/// The content of the latest user message (empty when there is none).
pub open spec fn last_user_content(h: Seq<ChatMessageView>) -> Seq<char> {
    if exists|i: int| is_last_user(h, i) {
        h[choose|i: int| is_last_user(h, i)].content
    } else {
        Seq::empty()
    }
}

/// The content of the latest user message of the history (empty when there is none).
pub fn last_user_message(history: &Vec<ChatMessage>) -> (s: String)
    ensures
        s@ == last_user_content(history.deep_view()),
{
    let ghost h = history.deep_view();
    let n = history.len();
    let mut i = n;
    while i > 0
        invariant
            i <= n,
            n == history.len(),
            h == history.deep_view(),
            forall|j: int| i <= j < n ==> #[trigger] h[j].role != ChatRole::User,
        decreases i,
    {
        assert(h[i - 1] == history@[i - 1]@);
        if history[i - 1].role == ChatRole::User {
            proof {
                let c = choose|c: int| is_last_user(h, c);
                assert(is_last_user(h, i - 1));
                if c < i - 1 {
                    assert(h[i - 1].role != ChatRole::User);
                } else if c > i - 1 {
                    assert(h[c].role != ChatRole::User);
                }
            }
            return history[i - 1].content.clone();
        }
        i = i - 1;
    }
    proof {
        assert(!exists|c: int| is_last_user(h, c)) by {
            if exists|c: int| is_last_user(h, c) {
                let c = choose|c: int| is_last_user(h, c);
                assert(h[c].role == ChatRole::User);
            }
        }
    }
    String::new()
}

/// Echo the latest user message (no tool calls).
#[derive(Debug, Clone)]
pub struct EchoChatModel;

impl Default for EchoChatModel {
    fn default() -> (m: EchoChatModel) {
        EchoChatModel
    }
}

impl ChatModel for EchoChatModel {
    /// Replies `[echo] <latest user message>`.
    fn chat(&mut self, context: &BuiltContext, tools: &[ToolDefinition]) -> (r: Result<AssistantTurn, AgentError>)
        ensures
            r matches Ok(t) && t@ == text_turn("[echo] "@ + last_user_content(context.history.deep_view())),
    {
        let last = last_user_message(&context.history);
        let mut out = owned("[echo] ");
        out.append(last.as_str());
        Ok(text_reply(out))
    }
}

/// The reply of the ping-pong model to the (trimmed) latest user message.
pub open spec fn ping_pong_reply(last: Seq<char>) -> Seq<char> {
    if eq_ignore_ascii_case_seq(last, "ping"@) {
        "pong"@
    } else {
        "echo: "@ + last
    }
}

/// Minimal server reply: `ping` gives `pong`, anything else `echo: <text>`.
#[derive(Debug, Clone)]
pub struct PingPongChatModel;

impl Default for PingPongChatModel {
    fn default() -> (m: PingPongChatModel) {
        PingPongChatModel
    }
}

impl ChatModel for PingPongChatModel {
    /// `pong` when the trimmed latest user message is `ping` in any ASCII case,
    /// else `echo: <trimmed message>`.
    fn chat(&mut self, context: &BuiltContext, tools: &[ToolDefinition]) -> (r: Result<AssistantTurn, AgentError>)
        ensures
            r matches Ok(t) && t@ == text_turn(ping_pong_reply(trim_seq(last_user_content(context.history.deep_view())))),
    {
        let last_raw = last_user_message(&context.history);
        let last = trim(last_raw.as_str());
        let out = if eq_ignore_ascii_case(last.as_str(), "ping") {
            owned("pong")
        } else {
            let mut o = owned("echo: ");
            o.append(last.as_str());
            o
        };
        Ok(text_reply(out))
    }
}

/// Some offered tool is named `name`.
pub open spec fn offers_tool(tools: Seq<ToolDefinitionView>, name: Seq<char>) -> bool {
    exists|i: int| 0 <= i < tools.len() && #[trigger] tools[i].name == name
}

/// The call the keyword model makes: the `ping` tool with empty arguments.
pub open spec fn keyword_ping_call() -> ToolCallRecordView {
    ToolCallRecordView { id: "kw_ping_1"@, name: "ping"@, arguments_json: "{}"@ }
}

/// Dev model: the message `ping` triggers a `ping` tool call if that tool is offered.
#[derive(Debug, Clone)]
pub struct KeywordToolModel;

impl Default for KeywordToolModel {
    fn default() -> (m: KeywordToolModel) {
        KeywordToolModel
    }
}

impl ChatModel for KeywordToolModel {
    /// A `ping` tool call when the trimmed latest user message is exactly `ping` and a
    /// `ping` tool is offered; otherwise the text `[llmos] <trimmed message>`.
    fn chat(&mut self, context: &BuiltContext, tools: &[ToolDefinition]) -> (r: Result<AssistantTurn, AgentError>)
        ensures
            r matches Ok(t) && t@ == (if trim_seq(last_user_content(context.history.deep_view())) == "ping"@
                && offers_tool(tools.deep_view(), "ping"@) {
                AssistantTurnView { content: None, tool_calls: seq![keyword_ping_call()] }
            } else {
                text_turn("[llmos] "@ + trim_seq(last_user_content(context.history.deep_view())))
            }),
    {
        let last_raw = last_user_message(&context.history);
        let last = trim(last_raw.as_str());
        let mut offered = false;
        let n = tools.len();
        let mut i: usize = 0;
        while i < n
            invariant
                i <= n,
                n == tools@.len(),
                offered == exists|k: int| 0 <= k < i && #[trigger] tools.deep_view()[k].name == "ping"@,
            decreases n - i,
        {
            assert(tools.deep_view()[i as int] == tools@[i as int]@);
            let ghost td = tools.deep_view();
            if str_eq(tools[i].name.as_str(), "ping") {
                offered = true;
                assert(td[i as int].name == "ping"@);
            } else {
                proof {
                    assert(td[i as int].name != "ping"@);
                    if exists|k: int| 0 <= k < i + 1 && #[trigger] td[k].name == "ping"@ {
                        let k = choose|k: int| 0 <= k < i + 1 && #[trigger] td[k].name == "ping"@;
                        assert(k < i);
                    }
                }
            }
            i = i + 1;
        }
        if str_eq(last.as_str(), "ping") && offered {
            let mut calls: Vec<ModelToolCall> = Vec::new();
            calls.push(ModelToolCall { id: owned("kw_ping_1"), name: owned("ping"), arguments_json: owned("{}") });
            let t = AssistantTurn { content: None, tool_calls: calls };
            assert(t@.tool_calls =~= seq![keyword_ping_call()]);
            return Ok(t);
        }
        let mut out = owned("[llmos] ");
        out.append(last.as_str());
        Ok(text_reply(out))
    }
}

/// Test double: hands out canned assistant turns in order. The script belongs to this
/// one model (it is not shared with copies), so each call takes the next turn of it.
#[derive(Debug)]
pub struct ScriptedChatModel {
    turns: Vec<AssistantTurn>,
}

impl View for ScriptedChatModel {
    type V = Seq<AssistantTurnView>;

    /// The turns still to come, in order.
    closed spec fn view(&self) -> Seq<AssistantTurnView> {
        self.turns.deep_view()
    }
}

impl ScriptedChatModel {
    pub fn new(turns: Vec<AssistantTurn>) -> (m: ScriptedChatModel)
        ensures
            m@ == turns.deep_view(),
    {
        ScriptedChatModel { turns }
    }
}

impl ChatModel for ScriptedChatModel {
    /// The next scripted turn; once the script is used up, the text
    /// `(no more scripted turns)`.
    fn chat(&mut self, context: &BuiltContext, tools: &[ToolDefinition]) -> (r: Result<AssistantTurn, AgentError>)
        ensures
            old(self)@.len() == 0 ==> final(self)@ == old(self)@ && (r matches Ok(t) && t@ == text_turn(
                "(no more scripted turns)"@,
            )),
            old(self)@.len() > 0 ==> final(self)@ == old(self)@.drop_first() && (r matches Ok(t) && t@ == old(
                self,
            )@[0]),
    {
        if self.turns.len() == 0 {
            return Ok(text_reply(owned("(no more scripted turns)")));
        }
        let ghost before = self.turns.deep_view();
        let t = self.turns.remove(0);
        assert(self.turns.deep_view() =~= before.drop_first());
        Ok(t)
    }
}

/// The word that names a role in a flattened prompt.
pub open spec fn role_word(r: ChatRole) -> Seq<char> {
    match r {
        ChatRole::User => "user"@,
        ChatRole::Assistant => "assistant"@,
        ChatRole::Tool => "tool"@,
    }
}

fn role_word_of(r: ChatRole) -> (s: &'static str)
    ensures
        s@ == role_word(r),
{
    match r {
        ChatRole::User => "user",
        ChatRole::Assistant => "assistant",
        ChatRole::Tool => "tool",
    }
}

/// One line per history message: `<role>: <content>`.
pub open spec fn history_lines(h: Seq<ChatMessageView>) -> Seq<char>
    decreases h.len(),
{
    if h.len() == 0 {
        Seq::empty()
    } else {
        history_lines(h.drop_last()) + role_word(h.last().role) + ": "@ + h.last().content + "\n"@
    }
}

/// A tool as one line of JSON: the object with its name, description and parameter
/// schema, as `serde_json` writes it.
pub open spec fn tool_json_line(t: ToolDefinitionView) -> Seq<char> {
    json_tool_object(t.name, t.description, t.parameters)
}

/// One JSON line per tool (a tool whose parameter schema is not JSON gets none).
pub open spec fn tool_lines(ts: Seq<ToolDefinitionView>) -> Seq<char>
    decreases ts.len(),
{
    if ts.len() == 0 {
        Seq::empty()
    } else if json_text_parses(ts.last().parameters) {
        tool_lines(ts.drop_last()) + tool_json_line(ts.last()) + "\n"@
    } else {
        tool_lines(ts.drop_last())
    }
}

/// The flattened prompt: system text, a rule, the history lines, then (when tools are
/// offered) a heading and one JSON line per tool.
pub open spec fn flattened_prompt(system: Seq<char>, h: Seq<ChatMessageView>, ts: Seq<ToolDefinitionView>) -> Seq<
    char,
> {
    let base = system + "\n\n---\n\n"@ + history_lines(h);
    if ts.len() == 0 {
        base
    } else {
        base + "\nAvailable tools (JSON function schema):\n"@ + tool_lines(ts)
    }
}

impl Model for Box<dyn Model> {
    /// Hands the call on to the boxed model.
    fn generate(&self, prompt: &str) -> (r: Result<String, AgentError>) {
        (**self).generate(prompt)
    }
}

/// Wrap a [`Model`] by flattening system + history + tool schemas into one prompt
/// (no native tool protocol).
pub struct FlattenChatModel<M: Model = Box<dyn Model>> {
    inner: M,
}

impl<M: Model> FlattenChatModel<M> {
    /// The wrapped text model.
    pub closed spec fn wrapped(&self) -> M {
        self.inner
    }

    pub fn new(inner: M) -> (m: FlattenChatModel<M>)
        ensures
            m.wrapped() == inner,
    {
        FlattenChatModel { inner }
    }
}

impl FlattenChatModel {
    /// The single prompt handed to the wrapped model.
    pub fn flatten_prompt(context: &BuiltContext, tools: &[ToolDefinition]) -> (s: String)
        ensures
            s@ == flattened_prompt(context.system@, context.history.deep_view(), tools.deep_view()),
    {
        let ghost h = context.history.deep_view();
        let ghost ts = tools.deep_view();
        let mut s = context.system.clone();
        s.append("\n\n---\n\n");
        let ghost base0 = s@;
        let n = context.history.len();
        for i in 0..n
            invariant
                n == context.history.len(),
                h == context.history.deep_view(),
                s@ == base0 + history_lines(h.take(i as int)),
        {
            let m = &context.history[i];
            assert(h.take(i + 1).drop_last() =~= h.take(i as int));
            assert(h.take(i + 1).last() == m@);
            s.append(role_word_of(m.role));
            s.append(": ");
            s.append(m.content.as_str());
            s.append("\n");
        }
        assert(h.take(n as int) =~= h);
        let k = tools.len();
        if k > 0 {
            s.append("\nAvailable tools (JSON function schema):\n");
            let ghost base1 = s@;
            for j in 0..k
                invariant
                    k == tools@.len(),
                    ts == tools.deep_view(),
                    s@ == base1 + tool_lines(ts.take(j as int)),
            {
                assert(ts.take(j + 1).drop_last() =~= ts.take(j as int));
                assert(ts.take(j + 1).last() == tools@[j as int]@);
                let t = &tools[j];
                match json_tool_object_text(t.name.as_str(), t.description.as_str(), t.parameters.as_str()) {
                    Ok(line) => {
                        s.append(line.as_str());
                        s.append("\n");
                    },
                    Err(_) => {},
                }
            }
            assert(ts.take(k as int) =~= ts);
        }
        s
    }
}

impl<M: Model> ChatModel for FlattenChatModel<M> {
    /// Hands the flattened prompt to the wrapped model; its text becomes the reply
    /// (no tool calls), its error is passed on.
    fn chat(&mut self, context: &BuiltContext, tools: &[ToolDefinition]) -> (r: Result<AssistantTurn, AgentError>)
        ensures
            final(self).wrapped() == old(self).wrapped(),
            exists|prompt: &str, generated: Result<String, AgentError>|
                prompt@ == flattened_prompt(context.system@, context.history.deep_view(), tools.deep_view())
                    && #[trigger] call_ensures(M::generate, (&old(self).wrapped(), prompt), generated)
                    && generation_gives(generated, r),
    {
        let prompt = FlattenChatModel::flatten_prompt(context, tools);
        let p = prompt.as_str();
        let generated = self.inner.generate(p);
        let ghost g = generated;
        let r = generation_reply(generated);
        assert(self.inner == old(self).wrapped());
        assert(call_ensures(M::generate, (&old(self).wrapped(), p), g));
        assert(generation_gives(g, r));
        r
    }
}

/// `r` is the assistant turn for what a text model returned (see [`generation_reply`]).
pub open spec fn generation_gives(generated: Result<String, AgentError>, r: Result<AssistantTurn, AgentError>) -> bool {
    match generated {
        Ok(text) => r matches Ok(t) && t@ == text_turn(text@),
        Err(e) => r == Err::<AssistantTurn, AgentError>(e),
    }
}

/// The assistant turn for what a text model returned: its text as the reply (no tool
/// calls), or its error unchanged.
pub fn generation_reply(generated: Result<String, AgentError>) -> (r: Result<AssistantTurn, AgentError>)
    ensures
        match generated {
            Ok(text) => r matches Ok(t) && t@ == text_turn(text@),
            Err(e) => r == Err::<AssistantTurn, AgentError>(e),
        },
{
    match generated {
        Ok(text) => Ok(text_reply(text)),
        Err(e) => Err(e),
    }
}

} // verus!
