//! The decisions of the streamed harness turn: request validation, the tool policy
//! for a request, the events a turn streams (phases, memory summary, loop events,
//! completion) with their sequence numbers, and the mapping of errors to statuses.
//! The transport (channels, locking, network) runs around these functions.

use vstd::prelude::*;
use vstd::string::StringSliceAdditionalSpecFns;
use vstd::utf8::*;

use crate::agent_loop::{run_turn_with_loop, turn_loop_ran, AgentLoopConfig, LoopEmit, LoopEmitView};
use crate::model::ChatModel;
use crate::prompting::ContextBuilder;
use crate::tools::ToolRegistry;
use crate::errors::AgentError;
use crate::policy::ToolPolicy;
use crate::prompting::join_seq;
use crate::scheduler::{debug_str_text, debug_string};
use crate::session::{ChatMessageView, ChatRole, Session};
use crate::text::{contains_str, has_substring, owned};

verus! {

/// Parameters for one streamed turn.
#[derive(Debug, Clone)]
pub struct RunTurnParams {
    pub session_id: String,
    pub agent_id: String,
    pub user_message: String,
    /// Empty list: use the server's default policy.
    pub client_tool_allowlist: Vec<String>,
}

/// A request was refused before any work.
#[derive(Debug, Clone, Copy, PartialEq, Eq, Structural)]
pub enum RequestError {
    MissingSessionId,
    MissingAgentId,
}

impl RequestError {
    /// The message sent back for the refusal.
    pub open spec fn text_view(self) -> Seq<char> {
        match self {
            RequestError::MissingSessionId => "session_id is required"@,
            RequestError::MissingAgentId => "agent_id is required"@,
        }
    }

    pub fn text(&self) -> (t: String)
        ensures
            t@ == self.text_view(),
    {
        match self {
            RequestError::MissingSessionId => owned("session_id is required"),
            RequestError::MissingAgentId => owned("agent_id is required"),
        }
    }
}

/// Check a turn request: a session id and an agent id are required (in that order).
pub fn validate_turn_request(
    session_id: String,
    agent_id: String,
    user_message: String,
    allowed_tool_names: Vec<String>,
) -> (r: Result<RunTurnParams, RequestError>)
    ensures
        session_id@.len() == 0 ==> r == Err::<RunTurnParams, RequestError>(RequestError::MissingSessionId),
        session_id@.len() != 0 && agent_id@.len() == 0 ==> r == Err::<RunTurnParams, RequestError>(
            RequestError::MissingAgentId,
        ),
        session_id@.len() != 0 && agent_id@.len() != 0 ==> (r matches Ok(p) && p.session_id@ == session_id@
            && p.agent_id@ == agent_id@ && p.user_message@ == user_message@ && p.client_tool_allowlist.deep_view()
            == allowed_tool_names.deep_view()),
{
    if session_id.as_str().is_empty() {
        return Err(RequestError::MissingSessionId);
    }
    if agent_id.as_str().is_empty() {
        return Err(RequestError::MissingAgentId);
    }
    Ok(RunTurnParams { session_id, agent_id, user_message, client_tool_allowlist: allowed_tool_names })
}

/// Mathematical model of a [`Payload`].
pub enum PayloadView {
    Phase { name: Seq<char>, detail: Seq<char> },
    Memory { summary: Seq<char>, prior_turns: u32 },
    Log { level: Seq<char>, message: Seq<char> },
    Tool { tool_name: Seq<char>, request: Seq<char>, response: Seq<char> },
    Partial { chunk: Seq<char> },
    Complete { agent_id: Seq<char>, output: Seq<char> },
    Error { code: Seq<char>, message: Seq<char> },
}

/// What one streamed harness event carries.
#[derive(Debug, Clone)]
pub enum Payload {
    Phase { name: String, detail: String },
    Memory { summary: String, prior_turns: u32 },
    Log { level: String, message: String },
    Tool { tool_name: String, request: String, response: String },
    Partial { chunk: String },
    Complete { agent_id: String, output: String },
    Error { code: String, message: String },
}

impl View for Payload {
    type V = PayloadView;

    open spec fn view(&self) -> PayloadView {
        match self {
            Payload::Phase { name, detail } => PayloadView::Phase { name: name@, detail: detail@ },
            Payload::Memory { summary, prior_turns } => PayloadView::Memory {
                summary: summary@,
                prior_turns: *prior_turns,
            },
            Payload::Log { level, message } => PayloadView::Log { level: level@, message: message@ },
            Payload::Tool { tool_name, request, response } => PayloadView::Tool {
                tool_name: tool_name@,
                request: request@,
                response: response@,
            },
            Payload::Partial { chunk } => PayloadView::Partial { chunk: chunk@ },
            Payload::Complete { agent_id, output } => PayloadView::Complete { agent_id: agent_id@, output: output@ },
            Payload::Error { code, message } => PayloadView::Error { code: code@, message: message@ },
        }
    }
}

impl DeepView for Payload {
    type V = PayloadView;

    open spec fn deep_view(&self) -> PayloadView {
        self@
    }
}

/// Mathematical model of a [`HarnessEvent`].
pub struct HarnessEventView {
    pub correlation_id: Seq<char>,
    pub seq: u64,
    pub payload: Option<PayloadView>,
}

/// One streamed harness event.
#[derive(Debug, Clone)]
pub struct HarnessEvent {
    pub correlation_id: String,
    pub seq: u64,
    pub payload: Option<Payload>,
}

impl View for HarnessEvent {
    type V = HarnessEventView;

    open spec fn view(&self) -> HarnessEventView {
        HarnessEventView {
            correlation_id: self.correlation_id@,
            seq: self.seq,
            payload: match self.payload {
                Some(p) => Some(p@),
                None => None,
            },
        }
    }
}

impl DeepView for HarnessEvent {
    type V = HarnessEventView;

    open spec fn deep_view(&self) -> HarnessEventView {
        self@
    }
}

/// The events that carry `payloads` in order for the turn `correlation`, numbered on
/// from `last` (the first gets `last + 1`).
pub open spec fn numbered(correlation: Seq<char>, last: nat, payloads: Seq<PayloadView>) -> Seq<HarnessEventView> {
    Seq::new(
        payloads.len(),
        |i: int| HarnessEventView { correlation_id: correlation, seq: (last + i + 1) as u64, payload: Some(payloads[i]) },
    )
}

/// Numbers the events of one turn: every event carries the turn's correlation id and
/// the next sequence number, starting at 1.
#[derive(Debug, Clone)]
pub struct EventSequencer {
    correlation_id: String,
    seq: u64,
}

impl EventSequencer {
    /// The correlation id of the turn.
    pub closed spec fn correlation(&self) -> Seq<char> {
        self.correlation_id@
    }

    /// The number of the last event handed out (0 before the first).
    pub closed spec fn last_seq(&self) -> nat {
        self.seq as nat
    }

    /// A sequencer for the turn `<session_id>-<agent_id>`.
    pub fn for_turn(params: &RunTurnParams) -> (s: EventSequencer)
        ensures
            s.correlation() == params.session_id@ + "-"@ + params.agent_id@,
            s.last_seq() == 0,
    {
        let mut c = params.session_id.clone();
        c.append("-");
        c.append(params.agent_id.as_str());
        EventSequencer { correlation_id: c, seq: 0 }
    }

    /// The number of the last event handed out (0 before the first).
    pub fn seq(&self) -> (n: u64)
        ensures
            n == self.last_seq(),
    {
        self.seq
    }

    /// The next event, carrying `payload`.
    pub fn next(&mut self, payload: Payload) -> (ev: HarnessEvent)
        requires
            old(self).last_seq() < u64::MAX,
        ensures
            final(self).correlation() == old(self).correlation(),
            final(self).last_seq() == old(self).last_seq() + 1,
            ev.correlation_id@ == old(self).correlation(),
            ev.seq == old(self).last_seq() + 1,
            ev.payload == Some(payload),
    {
        self.seq = self.seq + 1;
        HarnessEvent { correlation_id: self.correlation_id.clone(), seq: self.seq, payload: Some(payload) }
    }

    /// The events carrying `payloads`, in order, numbered on from the last one handed out.
    pub fn number_all(&mut self, payloads: Vec<Payload>) -> (evs: Vec<HarnessEvent>)
        requires
            old(self).last_seq() + payloads@.len() <= u64::MAX,
        ensures
            final(self).correlation() == old(self).correlation(),
            final(self).last_seq() == old(self).last_seq() + payloads@.len(),
            evs.deep_view() == numbered(old(self).correlation(), old(self).last_seq(), payloads.deep_view()),
    {
        let ghost start = self.last_seq();
        let ghost ps = payloads.deep_view();
        let mut evs: Vec<HarnessEvent> = Vec::new();
        let n = payloads.len();
        for i in 0..n
            invariant
                n == payloads@.len(),
                ps == payloads.deep_view(),
                start + n <= u64::MAX,
                self.correlation() == old(self).correlation(),
                self.last_seq() == start + i,
                start == old(self).last_seq(),
                evs.deep_view() == numbered(self.correlation(), start, ps.take(i as int)),
        {
            let p = copy_payload(&payloads[i]);
            let ghost before = evs.deep_view();
            let ev = self.next(p);
            evs.push(ev);
            assert(evs.deep_view() =~= numbered(self.correlation(), start, ps.take(i + 1))) by {
                assert(evs.deep_view() =~= before.push(ev@));
                assert(ps.take(i + 1)[i as int] == ps[i as int]);
            }
        }
        assert(ps.take(n as int) =~= ps);
        evs
    }
}

/// A copy of a payload.
pub fn copy_payload(p: &Payload) -> (c: Payload)
    ensures
        c@ == p@,
{
    match p {
        Payload::Phase { name, detail } => Payload::Phase { name: name.clone(), detail: detail.clone() },
        Payload::Memory { summary, prior_turns } => Payload::Memory { summary: summary.clone(), prior_turns: *prior_turns },
        Payload::Log { level, message } => Payload::Log { level: level.clone(), message: message.clone() },
        Payload::Tool { tool_name, request, response } => Payload::Tool {
            tool_name: tool_name.clone(),
            request: request.clone(),
            response: response.clone(),
        },
        Payload::Partial { chunk } => Payload::Partial { chunk: chunk.clone() },
        Payload::Complete { agent_id, output } => Payload::Complete { agent_id: agent_id.clone(), output: output.clone() },
        Payload::Error { code, message } => Payload::Error { code: code.clone(), message: message.clone() },
    }
}

/// The entries of a list as `{:?}` writes them: each string in its debug form, with
/// `, ` between them.
pub open spec fn debug_entries(names: Seq<Seq<char>>) -> Seq<char>
    decreases names.len(),
{
    if names.len() == 0 {
        Seq::empty()
    } else if names.len() == 1 {
        debug_string(names[0])
    } else {
        debug_entries(names.drop_last()) + ", "@ + debug_string(names.last())
    }
}

/// The text `{:?}` writes for a list of strings: the entries in square brackets.
pub open spec fn debug_string_list(names: Seq<Seq<char>>) -> Seq<char> {
    "["@ + debug_entries(names) + "]"@
}

/// The text `{:?}` writes for a list of strings.
pub fn debug_list_text(names: &[String]) -> (t: String)
    ensures
        t@ == debug_string_list(names.deep_view()),
{
    let ghost ns = names.deep_view();
    let mut t = owned("[");
    let n = names.len();
    for i in 0..n
        invariant
            n == names@.len(),
            ns == names.deep_view(),
            t@ == "["@ + debug_entries(ns.take(i as int)),
    {
        assert(ns.take(i + 1).drop_last() =~= ns.take(i as int));
        assert(ns.take(i + 1).last() == names@[i as int]@);
        if i > 0 {
            t.append(", ");
        } else {
            assert(ns.take(1)[0] == names@[0]@);
        }
        let q = debug_str_text(names[i].as_str());
        t.append(q.as_str());
    }
    assert(ns.take(n as int) =~= ns);
    t.append("]");
    t
}

/// The phase event that reports the tools a turn may use.
pub open spec fn authorize_tools_view(allowed: Seq<Seq<char>>) -> PayloadView {
    PayloadView::Phase { name: "authorize_tools"@, detail: "allowed_tools="@ + debug_string_list(allowed) }
}

/// The phase event before the transcript is loaded.
pub open spec fn memory_retrieve_view() -> PayloadView {
    PayloadView::Phase { name: "memory_retrieve"@, detail: "load session transcript"@ }
}

/// The phase event before the model/tool loop.
pub open spec fn agent_loop_view() -> PayloadView {
    PayloadView::Phase { name: "agent_loop"@, detail: "model iterations and tool execution"@ }
}

/// The phase event that reports the tools a turn may use.
pub fn authorize_tools_phase(policy: &ToolPolicy) -> (p: Payload)
    ensures
        p@ == authorize_tools_view(policy@),
{
    let mut detail = owned("allowed_tools=");
    let list = debug_list_text(policy.allowed_names());
    detail.append(list.as_str());
    Payload::Phase { name: owned("authorize_tools"), detail }
}

/// The phase event before the transcript is loaded.
pub fn memory_retrieve_phase() -> (p: Payload)
    ensures
        p@ == memory_retrieve_view(),
{
    Payload::Phase { name: owned("memory_retrieve"), detail: owned("load session transcript") }
}

/// The phase event before the model/tool loop.
pub fn agent_loop_phase() -> (p: Payload)
    ensures
        p@ == agent_loop_view(),
{
    Payload::Phase { name: owned("agent_loop"), detail: owned("model iterations and tool execution") }
}

/// The runtime note handed to the context: `session_id=<id>` and `agent_id=<id>` lines.
pub fn runtime_note(params: &RunTurnParams) -> (n: String)
    ensures
        n@ == "session_id="@ + params.session_id@ + "\nagent_id="@ + params.agent_id@,
{
    let mut n = owned("session_id=");
    n.append(params.session_id.as_str());
    n.append("\nagent_id=");
    n.append(params.agent_id.as_str());
    n
}

/// The number of UTF-8 bytes of `s`.
pub open spec fn byte_len(s: Seq<char>) -> nat {
    encode_utf8(s).len()
}

/// `s` cut to at most `max` bytes: unchanged when it fits, else its first `max - 1`
/// bytes (0 when `max` is 0) followed by `…`.
pub open spec fn truncated(s: Seq<char>, max: nat) -> Seq<char> {
    if byte_len(s) <= max {
        s
    } else {
        let keep = if max == 0 { 0 } else { max - 1 };
        decode_utf8(encode_utf8(s).subrange(0, keep as int)) + "…"@
    }
}

/// Cutting `s` at `max` is possible: its byte length fits in `usize`, and either it
/// fits in `max` bytes or the cut falls on a character boundary.
pub open spec fn cut_on_boundary(s: Seq<char>, max: nat) -> bool {
    &&& byte_len(s) <= usize::MAX
    &&& byte_len(s) > max ==> is_char_boundary(encode_utf8(s), if max == 0 { 0 } else { max - 1 })
}

/// `s` cut to at most `max` bytes, marked with `…` when cut.
pub fn truncate(s: &str, max: usize) -> (r: String)
    requires
        cut_on_boundary(s@, max as nat),
    ensures
        r@ == truncated(s@, max as nat),
{
    if s.len() <= max {
        return owned(s);
    }
    let keep = if max == 0 { 0 } else { max - 1 };
    let (head, _tail) = s.split_at(keep);
    proof {
        encode_utf8_decode_utf8(head@);
        assert(head.spec_bytes() =~= encode_utf8(s@).subrange(0, keep as int));
    }
    let mut r = owned(head);
    r.append("…");
    r
}

/// The word that names a role in summaries.
pub open spec fn role_name(r: ChatRole) -> Seq<char> {
    match r {
        ChatRole::User => "user"@,
        ChatRole::Assistant => "assistant"@,
        ChatRole::Tool => "tool"@,
    }
}

fn role_name_of(r: ChatRole) -> (s: &'static str)
    ensures
        s@ == role_name(r),
{
    match r {
        ChatRole::User => "user",
        ChatRole::Assistant => "assistant",
        ChatRole::Tool => "tool",
    }
}

/// The summary line of one message: `<role>: <content cut to 80 bytes>`.
pub open spec fn summary_line(m: ChatMessageView) -> Seq<char> {
    role_name(m.role) + ": "@ + truncated(m.content, 80)
}

/// The last (up to) three messages of `msgs`.
pub open spec fn last_three(msgs: Seq<ChatMessageView>) -> Seq<ChatMessageView> {
    if msgs.len() <= 3 {
        msgs
    } else {
        msgs.subrange(msgs.len() - 3, msgs.len() as int)
    }
}

/// The memory summary of a transcript: its last three messages, one summary line
/// each, joined with ` | ` (empty for an empty transcript).
pub open spec fn session_summary(msgs: Seq<ChatMessageView>) -> Seq<char> {
    join_seq(last_three(msgs).map_values(|m: ChatMessageView| summary_line(m)), " | "@)
}

/// Every message in the summary window can be cut at 80 bytes.
pub open spec fn summary_cuttable(msgs: Seq<ChatMessageView>) -> bool {
    forall|i: int| 0 <= i < last_three(msgs).len() ==> cut_on_boundary(#[trigger] last_three(msgs)[i].content, 80)
}

/// The memory summary of the session (see [`session_summary`]).
pub fn summarize_session(session: &Session) -> (s: String)
    requires
        summary_cuttable(session@),
    ensures
        s@ == session_summary(session@),
{
    let ghost msgs = session@;
    let n = session.messages.len();
    let start = if n <= 3 { 0 } else { n - 3 };
    let ghost tail = last_three(msgs);
    let ghost lines = tail.map_values(|m: ChatMessageView| summary_line(m));
    assert(tail.len() == n - start);
    let mut parts: Vec<String> = Vec::new();
    let mut i = start;
    while i < n
        invariant
            start <= i <= n,
            n == session.messages.len(),
            msgs == session@,
            tail == last_three(msgs),
            lines == tail.map_values(|m: ChatMessageView| summary_line(m)),
            tail.len() == n - start,
            start == (if n <= 3 { 0 } else { n - 3 }),
            summary_cuttable(msgs),
            parts.len() == i - start,
            forall|k: int| 0 <= k < parts.len() ==> #[trigger] parts@[k]@ == lines[k],
        decreases n - i,
    {
        let m = &session.messages[i];
        assert(tail[i - start] == msgs[i as int]);
        assert(msgs[i as int] == m@);
        assert(cut_on_boundary(tail[i - start].content, 80));
        let mut line = owned(role_name_of(m.role));
        line.append(": ");
        let cut = truncate(m.content.as_str(), 80);
        line.append(cut.as_str());
        parts.push(line);
        i = i + 1;
    }
    assert(parts.deep_view() =~= lines);
    crate::prompting::join_strings(parts.as_slice(), " | ")
}

/// The memory event: the transcript summary and the number of messages held
/// (as a `u32`, wrapping like `as`).
pub open spec fn memory_view(msgs: Seq<ChatMessageView>) -> PayloadView {
    PayloadView::Memory { summary: session_summary(msgs), prior_turns: msgs.len() as u32 }
}

/// The memory event of a session (see [`memory_view`]).
pub fn memory_context(session: &Session) -> (p: Payload)
    requires
        summary_cuttable(session@),
    ensures
        p@ == memory_view(session@),
{
    let summary = summarize_session(session);
    let n = session.messages.len();
    #[verifier::truncate]
    let prior_turns = n as u32;
    Payload::Memory { summary, prior_turns }
}

/// The streamed form of a loop event.
pub open spec fn loop_emit_payload(ev: LoopEmitView) -> PayloadView {
    match ev {
        LoopEmitView::Phase { name, detail } => PayloadView::Phase { name, detail },
        LoopEmitView::Iteration { n } => PayloadView::Log {
            level: "info"@,
            message: "model iteration "@ + crate::text::decimal(n),
        },
        LoopEmitView::ToolInvoked { name, request, response } => PayloadView::Tool {
            tool_name: name,
            request,
            response,
        },
        LoopEmitView::AssistantText { text } => PayloadView::Partial { chunk: text },
        LoopEmitView::Log { level, message } => PayloadView::Log { level, message },
    }
}

/// Map a loop event to its streamed payload.
pub fn map_loop_emit(ev: LoopEmit) -> (p: Payload)
    ensures
        p@ == loop_emit_payload(ev@),
{
    match ev {
        LoopEmit::Phase { name, detail } => Payload::Phase { name, detail },
        LoopEmit::Iteration { n } => {
            let mut message = owned("model iteration ");
            let digits = crate::text::decimal_string(n as u64);
            message.append(digits.as_str());
            Payload::Log { level: owned("info"), message }
        },
        LoopEmit::ToolInvoked { name, request, response } => Payload::Tool { tool_name: name, request, response },
        LoopEmit::AssistantText { text } => Payload::Partial { chunk: text },
        LoopEmit::Log { level, message } => Payload::Log { level, message },
    }
}

/// The completion event of a turn.
pub fn complete_payload(agent_id: &str, output: &str) -> (p: Payload)
    ensures
        p@ == (PayloadView::Complete { agent_id: agent_id@, output: output@ }),
{
    Payload::Complete { agent_id: owned(agent_id), output: owned(output) }
}

/// The events that open a turn, in order: the tools it may use, the transcript load,
/// the memory of the transcript, and the start of the model/tool loop.
pub open spec fn opening_view(allowed: Seq<Seq<char>>, msgs: Seq<ChatMessageView>) -> Seq<PayloadView> {
    seq![authorize_tools_view(allowed), memory_retrieve_view(), memory_view(msgs), agent_loop_view()]
}

/// The events that close a completed turn, in order: the loop's events, streamed, then
/// the completion with the final output.
pub open spec fn closing_view(emits: Seq<LoopEmitView>, agent_id: Seq<char>, output: Seq<char>) -> Seq<PayloadView> {
    emits.map_values(|e: LoopEmitView| loop_emit_payload(e)).push(PayloadView::Complete { agent_id, output })
}

/// The payloads that open a turn under `policy` on the transcript `session`.
pub fn opening_payloads(policy: &ToolPolicy, session: &Session) -> (ps: Vec<Payload>)
    requires
        summary_cuttable(session@),
    ensures
        ps.deep_view() == opening_view(policy@, session@),
{
    let mut ps: Vec<Payload> = Vec::new();
    ps.push(authorize_tools_phase(policy));
    ps.push(memory_retrieve_phase());
    ps.push(memory_context(session));
    ps.push(agent_loop_phase());
    assert(ps.deep_view() =~= opening_view(policy@, session@));
    ps
}

/// A copy of a loop event.
pub fn copy_loop_emit(e: &LoopEmit) -> (c: LoopEmit)
    ensures
        c@ == e@,
{
    match e {
        LoopEmit::Phase { name, detail } => LoopEmit::Phase { name: name.clone(), detail: detail.clone() },
        LoopEmit::Iteration { n } => LoopEmit::Iteration { n: *n },
        LoopEmit::ToolInvoked { name, request, response } => LoopEmit::ToolInvoked {
            name: name.clone(),
            request: request.clone(),
            response: response.clone(),
        },
        LoopEmit::AssistantText { text } => LoopEmit::AssistantText { text: text.clone() },
        LoopEmit::Log { level, message } => LoopEmit::Log { level: level.clone(), message: message.clone() },
    }
}

/// The payloads that close a turn whose loop produced `emits` and answered `output`.
pub fn closing_payloads(emits: &[LoopEmit], agent_id: &str, output: &str) -> (ps: Vec<Payload>)
    ensures
        ps.deep_view() == closing_view(emits.deep_view(), agent_id@, output@),
{
    let ghost es = emits.deep_view();
    let mut ps: Vec<Payload> = Vec::new();
    let n = emits.len();
    for i in 0..n
        invariant
            n == emits@.len(),
            es == emits.deep_view(),
            ps.deep_view() == es.take(i as int).map_values(|e: LoopEmitView| loop_emit_payload(e)),
    {
        let e = copy_loop_emit(&emits[i]);
        let ghost before = ps.deep_view();
        ps.push(map_loop_emit(e));
        assert(ps.deep_view() =~= es.take(i + 1).map_values(|e: LoopEmitView| loop_emit_payload(e))) by {
            assert(ps.deep_view() =~= before.push(loop_emit_payload(es[i as int])));
        }
    }
    assert(es.take(n as int) =~= es);
    let ghost body = ps.deep_view();
    ps.push(complete_payload(agent_id, output));
    assert(ps.deep_view() =~= body.push(PayloadView::Complete { agent_id: agent_id@, output: output@ }));
    ps
}

/// The tools a request may use: the client's list when it names any tool, else the
/// server default.
pub open spec fn requested_tools(client: Seq<Seq<char>>, server_default: Seq<Seq<char>>) -> Seq<Seq<char>> {
    if client.len() == 0 {
        server_default
    } else {
        client
    }
}

/// The runtime note of a turn (see [`runtime_note`]).
pub open spec fn runtime_note_text(params: RunTurnParams) -> Seq<char> {
    "session_id="@ + params.session_id@ + "\nagent_id="@ + params.agent_id@
}

/// The code of the status a failed turn ends with (see [`agent_error_to_status`]).
pub open spec fn failure_code(e: AgentError) -> StatusCode {
    if has_substring("agent error: "@ + e.message(), "not authorized"@) {
        StatusCode::PermissionDenied
    } else {
        StatusCode::Internal
    }
}

/// One streamed turn on `session`: the events to send, in order, and how the turn ends.
/// The turn opens with its opening events (tools, transcript load, memory, loop start),
/// runs the model/tool loop on the user message under the request's tool policy with
/// the turn's runtime note, and, when the loop answers, closes with the loop's events
/// and the completion. A failed loop ends the turn with the status of its error after
/// the opening events. Events are numbered from 1 under `<session_id>-<agent_id>`.
pub fn run_turn_events<M: ChatModel, F: Fn(&str) -> String>(
    session: &mut Session,
    params: &RunTurnParams,
    registry: &ToolRegistry,
    server_default: &ToolPolicy,
    chat_model: &mut M,
    ctx: &ContextBuilder,
    config: &AgentLoopConfig,
    load_bootstrap: &F,
) -> (out: (Vec<HarnessEvent>, Result<(), Status>))
    requires
        summary_cuttable(old(session)@),
        forall|w: &str| call_requires(*load_bootstrap, (w,)),
    ensures
        ({
            let allowed = requested_tools(params.client_tool_allowlist.deep_view(), server_default@);
            let corr = params.session_id@ + "-"@ + params.agent_id@;
            let opening = opening_view(allowed, old(session)@);
            exists|emits: Seq<LoopEmitView>, note: &str, r: Result<String, AgentError>|
                #[trigger] turn_loop_ran(
                    old(session)@,
                    final(session)@,
                    Seq::empty(),
                    emits,
                    *old(chat_model),
                    *final(chat_model),
                    params.user_message@,
                    registry@,
                    allowed,
                    *ctx,
                    config.max_iterations as nat,
                    Some(note),
                    *load_bootstrap,
                    r,
                ) && note@ == runtime_note_text(*params) && match r {
                    Ok(text) => if opening.len() + closing_view(emits, params.agent_id@, text@).len() <= u64::MAX {
                        out.0.deep_view() == numbered(
                            corr,
                            0,
                            opening + closing_view(emits, params.agent_id@, text@),
                        ) && out.1 is Ok
                    } else {
                        out.0.deep_view() == numbered(corr, 0, opening) && (out.1 matches Err(st) && st.code
                            == StatusCode::Internal && st.message@ == "event sequence number overflow"@)
                    },
                    Err(e) => out.0.deep_view() == numbered(corr, 0, opening) && (out.1 matches Err(st) && st.code
                        == failure_code(e) && st.message@ == "agent error: "@ + e.message()),
                }
        }),
{
    let mut seq = EventSequencer::for_turn(params);
    let policy = request_policy(params, server_default);
    let opening = opening_payloads(&policy, session);
    assert(opening@.len() == opening.deep_view().len());
    let mut events = seq.number_all(opening);
    let note = runtime_note(params);
    let note_ref = note.as_str();
    let mut emits: Vec<LoopEmit> = Vec::new();
    let ghost e_empty = emits.deep_view();
    assert(e_empty =~= Seq::<LoopEmitView>::empty());
    let r = run_turn_with_loop(
        session,
        params.user_message.as_str(),
        registry,
        &policy,
        chat_model,
        ctx,
        config,
        Some(note_ref),
        load_bootstrap,
        &mut emits,
    );
    let ghost rv = r;
    let ghost ev_open = events.deep_view();
    assert(turn_loop_ran(
        old(session)@,
        session@,
        Seq::empty(),
        emits.deep_view(),
        *old(chat_model),
        *chat_model,
        params.user_message@,
        registry@,
        policy@,
        *ctx,
        config.max_iterations as nat,
        Some(note_ref),
        *load_bootstrap,
        rv,
    ));
    assert(note_ref@ == runtime_note_text(*params));
    assert(params.client_tool_allowlist@.len() == params.client_tool_allowlist.deep_view().len());
    assert(policy@ == requested_tools(params.client_tool_allowlist.deep_view(), server_default@));
    assert(ev_open == numbered(params.session_id@ + "-"@ + params.agent_id@, 0, opening_view(policy@, old(session)@)));
    match r {
        Ok(text) => {
            let closing = closing_payloads(emits.as_slice(), params.agent_id.as_str(), text.as_str());
            assert(closing@.len() == closing.deep_view().len());
            if (closing.len() as u128) > 18446744073709551611u128 {
                let st = Status { code: StatusCode::Internal, message: owned("event sequence number overflow") };
                return (events, Err(st));
            }
            let rest = seq.number_all(closing);
            let ghost rest_v = rest.deep_view();
            let mut rest = rest;
            events.append(&mut rest);
            proof {
                crate::laws::law_event_numbers_continue(
                    params.session_id@ + "-"@ + params.agent_id@,
                    0,
                    opening_view(policy@, old(session)@),
                    closing_view(emits.deep_view(), params.agent_id@, text@),
                );
                assert(events.deep_view() =~= ev_open + rest_v);
            }
            (events, Ok(()))
        },
        Err(e) => {
            let st = agent_error_to_status(&e);
            (events, Err(st))
        },
    }
}

/// Status codes a turn can end with.
#[derive(Debug, Clone, Copy, PartialEq, Eq, Structural)]
pub enum StatusCode {
    InvalidArgument,
    PermissionDenied,
    Internal,
}

/// A failed turn: a status code and a message.
#[derive(Debug, Clone)]
pub struct Status {
    pub code: StatusCode,
    pub message: String,
}

impl StatusCode {
    /// The name of the code.
    pub open spec fn name_view(self) -> Seq<char> {
        match self {
            StatusCode::InvalidArgument => "InvalidArgument"@,
            StatusCode::PermissionDenied => "PermissionDenied"@,
            StatusCode::Internal => "Internal"@,
        }
    }

    pub fn name(&self) -> (s: &'static str)
        ensures
            s@ == self.name_view(),
    {
        match self {
            StatusCode::InvalidArgument => "InvalidArgument",
            StatusCode::PermissionDenied => "PermissionDenied",
            StatusCode::Internal => "Internal",
        }
    }
}

impl Status {
    /// The text of the status: `<code name>: <message>`.
    pub fn to_text(&self) -> (t: String)
        ensures
            t@ == self.code.name_view() + ": "@ + self.message@,
    {
        let mut t = owned(self.code.name());
        t.append(": ");
        t.append(self.message.as_str());
        t
    }
}

/// The status a refused request ends with.
pub fn request_error_status(e: RequestError) -> (s: Status)
    ensures
        s.code == StatusCode::InvalidArgument,
        s.message@ == e.text_view(),
{
    Status { code: StatusCode::InvalidArgument, message: e.text() }
}

/// The status a failed turn ends with: permission denied when the error text mentions
/// `not authorized`, else internal; the message is the error's text.
pub fn agent_error_to_status(e: &AgentError) -> (s: Status)
    ensures
        s.message@ == "agent error: "@ + e.message(),
        s.code == (if has_substring("agent error: "@ + e.message(), "not authorized"@) {
            StatusCode::PermissionDenied
        } else {
            StatusCode::Internal
        }),
{
    let m = e.to_text();
    if contains_str(m.as_str(), "not authorized") {
        return Status { code: StatusCode::PermissionDenied, message: m };
    }
    Status { code: StatusCode::Internal, message: m }
}

/// The status when the client stops listening.
pub fn client_disconnected() -> (s: Status)
    ensures
        s.code == StatusCode::Internal,
        s.message@ == "client disconnected"@,
{
    Status { code: StatusCode::Internal, message: owned("client disconnected") }
}

/// Collects the final output of a streamed turn: the output of the last completion
/// event, unless an error event or a failed item ends the stream first.
#[derive(Debug, Clone)]
pub struct TurnOutputCollector {
    output: Option<String>,
}

impl TurnOutputCollector {
    /// The output of the last completion seen so far.
    pub closed spec fn output_view(&self) -> Option<Seq<char>> {
        match self.output {
            Some(o) => Some(o@),
            None => None,
        }
    }

    pub fn new() -> (c: TurnOutputCollector)
        ensures
            c.output_view() is None,
    {
        TurnOutputCollector { output: None }
    }

    /// Take one stream item. A completion records its output; an error event stops the
    /// stream with `<prefix><code>: <message>`; other events change nothing.
    pub fn absorb(&mut self, ev: HarnessEvent, error_prefix: &str) -> (r: Option<String>)
        ensures
            match ev.payload {
                Some(Payload::Complete { output, .. }) => r is None && final(self).output_view() == Some(output@),
                Some(Payload::Error { code, message }) => (r matches Some(t) && t@ == error_prefix@ + code@ + ": "@
                    + message@) && final(self).output_view() == old(self).output_view(),
                _ => r is None && final(self).output_view() == old(self).output_view(),
            },
    {
        match ev.payload {
            Some(Payload::Complete { output, .. }) => {
                self.output = Some(output);
                None
            },
            Some(Payload::Error { code, message }) => {
                let mut t = owned(error_prefix);
                t.append(code.as_str());
                t.append(": ");
                t.append(message.as_str());
                Some(t)
            },
            _ => None,
        }
    }

    /// The final output, or the error `stream ended without TurnComplete`.
    pub fn finish(self) -> (r: Result<String, String>)
        ensures
            match self.output_view() {
                Some(o) => r matches Ok(t) && t@ == o,
                None => r matches Err(t) && t@ == "stream ended without TurnComplete"@,
            },
    {
        match self.output {
            Some(o) => Ok(o),
            None => Err(owned("stream ended without TurnComplete")),
        }
    }
}

/// The tool policy for a request: the client's list when it names any tool, else the
/// server default.
pub fn request_policy(params: &RunTurnParams, server_default: &ToolPolicy) -> (p: ToolPolicy)
    ensures
        p@ == (if params.client_tool_allowlist@.len() == 0 {
            server_default@
        } else {
            params.client_tool_allowlist.deep_view()
        }),
{
    ToolPolicy::for_request(params.client_tool_allowlist.as_slice(), server_default)
}

} // verus!
