//! Multi-iteration harness turn: call the chat model, execute the tool calls it
//! asks for, repeat until it answers with text.

use vstd::prelude::*;

use crate::errors::AgentError;
use crate::json::{json_text_parses, parse_tool_arguments, tool_arguments};
use crate::model::{AssistantTurn, ChatModel, ModelToolCall};
use crate::prompting::{system_prompt_text, with_runtime_note, BuiltContext};
use crate::policy::ToolPolicy;
use crate::prompting::ContextBuilder;
use crate::session::{
    history_window, ChatMessage, ChatMessageView, ChatRole, Session, ToolCallRecord, ToolCallRecordView,
};
use crate::text::{decimal, decimal_string, owned, trim_seq};
use crate::tools::{filter_allowed, RegistryView, ToolDefinition, ToolDefinitionView, ToolRegistry};

verus! {

/// Upper bound on model/tool rounds for one user message.
#[derive(Debug, Clone)]
pub struct AgentLoopConfig {
    pub max_iterations: u32,
}

impl Default for AgentLoopConfig {
    fn default() -> (c: AgentLoopConfig)
        ensures
            c.max_iterations == 16,
    {
        AgentLoopConfig { max_iterations: 16 }
    }
}

/// Mathematical model of a [`LoopEmit`].
pub enum LoopEmitView {
    Phase { name: Seq<char>, detail: Seq<char> },
    Iteration { n: nat },
    ToolInvoked { name: Seq<char>, request: Seq<char>, response: Seq<char> },
    AssistantText { text: Seq<char> },
    Log { level: Seq<char>, message: Seq<char> },
}

/// Events produced by the loop for the RPC layer.
#[derive(Debug, Clone)]
pub enum LoopEmit {
    Phase { name: String, detail: String },
    Iteration { n: u32 },
    ToolInvoked { name: String, request: String, response: String },
    AssistantText { text: String },
    Log { level: String, message: String },
}

impl View for LoopEmit {
    type V = LoopEmitView;

    open spec fn view(&self) -> LoopEmitView {
        match self {
            LoopEmit::Phase { name, detail } => LoopEmitView::Phase { name: name@, detail: detail@ },
            LoopEmit::Iteration { n } => LoopEmitView::Iteration { n: *n as nat },
            LoopEmit::ToolInvoked { name, request, response } => LoopEmitView::ToolInvoked {
                name: name@,
                request: request@,
                response: response@,
            },
            LoopEmit::AssistantText { text } => LoopEmitView::AssistantText { text: text@ },
            LoopEmit::Log { level, message } => LoopEmitView::Log { level: level@, message: message@ },
        }
    }
}

impl DeepView for LoopEmit {
    type V = LoopEmitView;

    open spec fn deep_view(&self) -> LoopEmitView {
        self@
    }
}

/// The transcript entry for a tool call answered with `response`.
pub open spec fn tool_result_view(c: ToolCallRecordView, response: Seq<char>) -> ChatMessageView {
    ChatMessageView {
        role: ChatRole::Tool,
        content: response,
        tool_calls: None,
        tool_call_id: Some(c.id),
        name: Some(c.name),
    }
}

/// The transcript entries for the calls answered with `responses`.
pub open spec fn executed_messages(calls: Seq<ToolCallRecordView>, responses: Seq<Seq<char>>) -> Seq<ChatMessageView>
    decreases calls.len(),
{
    if calls.len() == 0 {
        Seq::empty()
    } else {
        executed_messages(calls.drop_last(), responses) + seq![
            tool_result_view(calls.last(), responses[calls.len() - 1]),
        ]
    }
}

/// The phase event that announces the execution of a tool.
pub open spec fn tool_phase(c: ToolCallRecordView) -> LoopEmitView {
    LoopEmitView::Phase { name: "tool_execute"@, detail: c.name }
}

/// The events for the calls answered with `responses`: per call, its phase event and
/// the invocation event with request and response.
pub open spec fn executed_events(calls: Seq<ToolCallRecordView>, responses: Seq<Seq<char>>) -> Seq<LoopEmitView>
    decreases calls.len(),
{
    if calls.len() == 0 {
        Seq::empty()
    } else {
        executed_events(calls.drop_last(), responses) + seq![
            tool_phase(calls.last()),
            LoopEmitView::ToolInvoked {
                name: calls.last().name,
                request: calls.last().arguments_json,
                response: responses[calls.len() - 1],
            },
        ]
    }
}

/// Every listed call names a tool the policy allows.
pub open spec fn all_allowed(calls: Seq<ToolCallRecordView>, allowed: Seq<Seq<char>>) -> bool {
    forall|i: int| 0 <= i < calls.len() ==> allowed.contains(#[trigger] calls[i].name)
}

/// The message names a tool the policy allows.
pub open spec fn names_allowed_tool(m: ChatMessageView, allowed: Seq<Seq<char>>) -> bool {
    match m.name {
        Some(n) => allowed.contains(n),
        None => false,
    }
}

/// Every tool result in `msgs[from..]` names a tool the policy allows.
pub open spec fn tool_results_allowed(msgs: Seq<ChatMessageView>, from: int, allowed: Seq<Seq<char>>) -> bool {
    forall|k: int|
        from <= k < msgs.len() && #[trigger] msgs[k].role == ChatRole::Tool ==> names_allowed_tool(msgs[k], allowed)
}

/// An iteration mark, if `e` is one, counts from 1 up to `max`.
pub open spec fn iteration_within(e: LoopEmitView, max: nat) -> bool {
    match e {
        LoopEmitView::Iteration { n } => 1 <= n <= max,
        _ => true,
    }
}

/// The error for a tool call the policy does not allow.
pub open spec fn not_authorized_message(name: Seq<char>) -> Seq<char> {
    "tool "@ + name + " is not authorized for this turn"@
}

/// The error when the model keeps asking for tools past the iteration bound.
pub open spec fn exceeded_message(max: nat) -> Seq<char> {
    "agent loop exceeded max_iterations ("@ + decimal(max) + ")"@
}

/// The argument text of a tool call is accepted: blank, or JSON that parses.
pub open spec fn arguments_parse(arguments_json: Seq<char>) -> bool {
    trim_seq(arguments_json).len() == 0 || json_text_parses(arguments_json)
}

/// Every listed call could run: its arguments parse and a tool is registered under its
/// name.
pub open spec fn all_runnable(calls: Seq<ToolCallRecordView>, registered: RegistryView) -> bool {
    forall|i: int|
        0 <= i < calls.len() ==> arguments_parse(#[trigger] calls[i].arguments_json) && registered.names.contains(
            calls[i].name,
        )
}

/// Each of the calls ran the tool registered under its name on its arguments, and the
/// tool answered with the matching entry of `resps`.
pub open spec fn tools_answered(calls: Seq<ToolCallRecordView>, registered: RegistryView, resps: Seq<Seq<char>>) -> bool {
    forall|i: int|
        0 <= i < calls.len() ==> registered.tools[#[trigger] calls[i].name].may_answer(
            tool_arguments(calls[i].arguments_json),
            Ok(resps[i]),
        )
}

/// Every call ran and was answered with `resps`: the transcript gained the tool results
/// and the events gained the per-call events.
pub open spec fn tool_run_done(
    calls: Seq<ToolCallRecordView>,
    allowed: Seq<Seq<char>>,
    registered: RegistryView,
    resps: Seq<Seq<char>>,
    s_old: Seq<ChatMessageView>,
    s_new: Seq<ChatMessageView>,
    e_old: Seq<LoopEmitView>,
    e_new: Seq<LoopEmitView>,
) -> bool {
    &&& all_allowed(calls, allowed)
    &&& all_runnable(calls, registered)
    &&& resps.len() == calls.len()
    &&& tools_answered(calls, registered, resps)
    &&& s_new == s_old + executed_messages(calls, resps)
    &&& e_new == e_old + executed_events(calls, resps)
}

/// The calls before `k` ran (answered with `resps`), and call `k` stopped the run:
/// either the policy does not allow it (the error says so and nothing was announced
/// for it), or it was announced and then its arguments did not parse (the error says
/// `invalid tool JSON: ...`), no tool is registered under its name (the error says
/// `unknown tool: <name>`), or the registered tool ran on its arguments and answered
/// with the error `message`.
pub open spec fn tool_run_stopped(
    calls: Seq<ToolCallRecordView>,
    allowed: Seq<Seq<char>>,
    registered: RegistryView,
    k: int,
    resps: Seq<Seq<char>>,
    s_old: Seq<ChatMessageView>,
    s_new: Seq<ChatMessageView>,
    e_old: Seq<LoopEmitView>,
    e_new: Seq<LoopEmitView>,
    message: Seq<char>,
) -> bool {
    &&& 0 <= k < calls.len()
    &&& resps.len() == k
    &&& all_allowed(calls.take(k), allowed)
    &&& all_runnable(calls.take(k), registered)
    &&& tools_answered(calls.take(k), registered, resps)
    &&& s_new == s_old + executed_messages(calls.take(k), resps)
    &&& if allowed.contains(calls[k].name) {
        &&& e_new == e_old + executed_events(calls.take(k), resps) + seq![tool_phase(calls[k])]
        &&& !arguments_parse(calls[k].arguments_json) ==> exists|m: Seq<char>| message == "invalid tool JSON: "@ + m
        &&& arguments_parse(calls[k].arguments_json) && !registered.names.contains(calls[k].name) ==> message
            == "unknown tool: "@ + calls[k].name
        &&& arguments_parse(calls[k].arguments_json) && registered.names.contains(calls[k].name)
            ==> registered.tools[calls[k].name].may_answer(tool_arguments(calls[k].arguments_json), Err(message))
    } else {
        message == not_authorized_message(calls[k].name) && e_new == e_old + executed_events(calls.take(k), resps)
    }
}

/// The transcript entry for an assistant turn that asks for tools.
pub open spec fn assistant_tools_view(content: Option<Seq<char>>, calls: Seq<ToolCallRecordView>) -> ChatMessageView {
    ChatMessageView {
        role: ChatRole::Assistant,
        content: match content {
            Some(c) => c,
            None => Seq::empty(),
        },
        tool_calls: Some(calls),
        tool_call_id: None,
        name: None,
    }
}

/// The transcript entry for an assistant text answer.
pub open spec fn assistant_text_view(text: Seq<char>) -> ChatMessageView {
    ChatMessageView { role: ChatRole::Assistant, content: text, tool_calls: None, tool_call_id: None, name: None }
}

/// The transcript entry for a user message.
pub open spec fn user_view(text: Seq<char>) -> ChatMessageView {
    ChatMessageView { role: ChatRole::User, content: text, tool_calls: None, tool_call_id: None, name: None }
}

proof fn lemma_executed_step(calls: Seq<ToolCallRecordView>, responses: Seq<Seq<char>>, k: int, r: Seq<char>)
    requires
        0 <= k < calls.len(),
        responses.len() == k,
    ensures
        executed_messages(calls.take(k + 1), responses.push(r)) == executed_messages(calls.take(k), responses)
            + seq![tool_result_view(calls[k], r)],
        executed_events(calls.take(k + 1), responses.push(r)) == executed_events(calls.take(k), responses)
            + seq![
            tool_phase(calls[k]),
            LoopEmitView::ToolInvoked { name: calls[k].name, request: calls[k].arguments_json, response: r },
        ],
{
    assert(calls.take(k + 1).drop_last() =~= calls.take(k));
    lemma_executed_prefix(calls.take(k), responses, responses.push(r));
}

proof fn lemma_executed_prefix(calls: Seq<ToolCallRecordView>, a: Seq<Seq<char>>, b: Seq<Seq<char>>)
    requires
        calls.len() <= a.len(),
        calls.len() <= b.len(),
        forall|i: int| 0 <= i < calls.len() ==> a[i] == b[i],
    ensures
        executed_messages(calls, a) == executed_messages(calls, b),
        executed_events(calls, a) == executed_events(calls, b),
    decreases calls.len(),
{
    if calls.len() > 0 {
        lemma_executed_prefix(calls.drop_last(), a, b);
    }
}

/// Record an assistant turn that asks for tools in the transcript.
pub fn push_assistant_tool_turn(session: &mut Session, turn: &AssistantTurn)
    ensures
        final(session)@ == old(session)@.push(assistant_tools_view(turn@.content, turn@.tool_calls)),
{
    let mut records: Vec<ToolCallRecord> = Vec::new();
    let n = turn.tool_calls.len();
    for i in 0..n
        invariant
            n == turn.tool_calls.len(),
            records.len() == i,
            forall|k: int| 0 <= k < i ==> #[trigger] records@[k]@ == turn.tool_calls@[k]@,
    {
        let tc = &turn.tool_calls[i];
        records.push(ToolCallRecord {
            id: tc.id.clone(),
            name: tc.name.clone(),
            arguments_json: tc.arguments_json.clone(),
        });
    }
    assert(records.deep_view() =~= turn.tool_calls.deep_view());
    let content = match &turn.content {
        Some(c) => c.clone(),
        None => String::new(),
    };
    let msg = ChatMessage::assistant_tools(records, content.as_str());
    session.push(msg);
}

/// Execute the requested tool calls in order, recording each result in the transcript.
/// A call that the policy does not allow stops the turn with an error before anything
/// runs for it; a malformed argument text or a failing tool stops it too.
pub fn execute_tool_calls(
    session: &mut Session,
    registry: &ToolRegistry,
    policy: &ToolPolicy,
    calls: &[ModelToolCall],
    events: &mut Vec<LoopEmit>,
) -> (r: Result<(), AgentError>)
    ensures
        r is Ok ==> exists|resps: Seq<Seq<char>>|
            #[trigger] tool_run_done(
                calls.deep_view(),
                policy@,
                registry@,
                resps,
                old(session)@,
                final(session)@,
                old(events).deep_view(),
                final(events).deep_view(),
            ),
        r is Err ==> exists|k: int, resps: Seq<Seq<char>>|
            #[trigger] tool_run_stopped(
                calls.deep_view(),
                policy@,
                registry@,
                k,
                resps,
                old(session)@,
                final(session)@,
                old(events).deep_view(),
                final(events).deep_view(),
                r->Err_0.message(),
            ),
{
    let ghost cv = calls.deep_view();
    let ghost s0 = session@;
    let ghost e0 = events.deep_view();
    let ghost mut resps: Seq<Seq<char>> = Seq::empty();
    let n = calls.len();
    let mut i: usize = 0;
    let mut failed: Option<AgentError> = None;
    assert(cv.take(0) =~= Seq::<ToolCallRecordView>::empty());
    while i < n && failed.is_none()
        invariant
            i <= n,
            n == calls@.len(),
            cv == calls.deep_view(),
            s0 == old(session)@,
            e0 == old(events).deep_view(),
            resps.len() == i,
            all_allowed(cv.take(i as int), policy@),
            all_runnable(cv.take(i as int), registry@),
            tools_answered(cv.take(i as int), registry@, resps),
            session@ == s0 + executed_messages(cv.take(i as int), resps),
            failed is None ==> events.deep_view() == e0 + executed_events(cv.take(i as int), resps),
            failed matches Some(e) ==> tool_run_stopped(
                cv,
                policy@,
                registry@,
                i as int,
                resps,
                s0,
                session@,
                e0,
                events.deep_view(),
                e.message(),
            ),
        decreases n - i + (if failed is None { 1int } else { 0int }),
    {
        let tc = &calls[i];
        assert(cv[i as int] == tc@);
        if !policy.allows(tc.name.as_str()) {
            let mut m = owned("tool ");
            m.append(tc.name.as_str());
            m.append(" is not authorized for this turn");
            let err = AgentError::msg(m.as_str());
            proof {
                assert(!policy@.contains(cv[i as int].name));
                assert(err.message() == not_authorized_message(cv[i as int].name));
            }
            failed = Some(err);
        } else {
            let ghost ev_before = events.deep_view();
            events.push(LoopEmit::Phase { name: owned("tool_execute"), detail: tc.name.clone() });
            assert(events.deep_view() =~= ev_before.push(tool_phase(tc@)));
            assert(events.deep_view() =~= e0 + executed_events(cv.take(i as int), resps) + seq![tool_phase(cv[i as int])]);
            match parse_tool_arguments(tc.arguments_json.as_str()) {
                Err(e) => {
                    failed = Some(e);
                },
                Ok(args) => {
                    let request = tc.arguments_json.clone();
                    match registry.execute_json(tc.name.as_str(), &args) {
                        Err(e) => {
                            failed = Some(e);
                        },
                        Ok(response) => {
                            let ghost ev_mid = events.deep_view();
                            events.push(LoopEmit::ToolInvoked { name: tc.name.clone(), request, response: response.clone() });
                            assert(events.deep_view() =~= ev_mid.push(
                                LoopEmitView::ToolInvoked { name: tc.name@, request: tc.arguments_json@, response: response@ },
                            ));
                            session.push(ChatMessage::tool_result(tc.id.as_str(), tc.name.as_str(), response.as_str()));
                            proof {
                                lemma_executed_step(cv, resps, i as int, response@);
                                resps = resps.push(response@);
                                assert(session@ =~= s0 + executed_messages(cv.take(i + 1), resps));
                                assert(events.deep_view() =~= e0 + executed_events(cv.take(i + 1), resps));
                                assert forall|q: int| 0 <= q < cv.take(i + 1).len() implies policy@.contains(
                                    #[trigger] cv.take(i + 1)[q].name,
                                ) by {
                                    if q < i {
                                        assert(cv.take(i + 1)[q] == cv.take(i as int)[q]);
                                    }
                                }
                                assert(arguments_parse(cv[i as int].arguments_json));
                                assert(registry@.names.contains(cv[i as int].name));
                                assert forall|q: int| 0 <= q < cv.take(i + 1).len() implies arguments_parse(
                                    #[trigger] cv.take(i + 1)[q].arguments_json,
                                ) && registry@.names.contains(cv.take(i + 1)[q].name) by {
                                    if q < i {
                                        assert(cv.take(i + 1)[q] == cv.take(i as int)[q]);
                                    }
                                }
                                assert forall|q: int| 0 <= q < cv.take(i + 1).len() implies registry@.tools[
                                    #[trigger] cv.take(i + 1)[q].name].may_answer(
                                    tool_arguments(cv.take(i + 1)[q].arguments_json),
                                    Ok(resps[q]),
                                ) by {
                                    if q < i {
                                        assert(cv.take(i + 1)[q] == cv.take(i as int)[q]);
                                    }
                                }
                            }
                            i = i + 1;
                        },
                    }
                },
            }
        }
    }
    match failed {
        Some(e) => {
            let ghost message = e.message();
            let r: Result<(), AgentError> = Err(e);
            assert(r->Err_0.message() == message);
            assert(tool_run_stopped(calls.deep_view(), policy@, registry@, i as int, resps, old(session)@, session@, old(events).deep_view(), events.deep_view(), message));
            r
        },
        None => {
            assert(cv.take(n as int) =~= cv);
            assert(tool_run_done(cv, policy@, registry@, resps, s0, session@, e0, events.deep_view()));
            Ok(())
        },
    }
}

/// The executed messages are tool results of the executed calls.
proof fn lemma_executed_allowed(calls: Seq<ToolCallRecordView>, resps: Seq<Seq<char>>, allowed: Seq<Seq<char>>)
    requires
        all_allowed(calls, allowed),
        resps.len() >= calls.len(),
    ensures
        executed_messages(calls, resps).len() == calls.len(),
        tool_results_allowed(executed_messages(calls, resps), 0, allowed),
    decreases calls.len(),
{
    if calls.len() > 0 {
        let prev = calls.drop_last();
        assert(all_allowed(prev, allowed)) by {
            assert forall|i: int| 0 <= i < prev.len() implies allowed.contains(#[trigger] prev[i].name) by {
                assert(prev[i] == calls[i]);
            }
        }
        lemma_executed_allowed(prev, resps, allowed);
        let m = executed_messages(calls, resps);
        let pm = executed_messages(prev, resps);
        assert forall|k: int| 0 <= k < m.len() && #[trigger] m[k].role == ChatRole::Tool implies names_allowed_tool(m[k], allowed) by {
            if k < pm.len() {
                assert(m[k] == pm[k]);
            } else {
                assert(allowed.contains(calls[calls.len() - 1].name));
            }
        }
    }
}

/// Appending allowed tool results keeps the transcript's tool results allowed.
proof fn lemma_allowed_append(a: Seq<ChatMessageView>, from: int, b: Seq<ChatMessageView>, allowed: Seq<Seq<char>>)
    requires
        tool_results_allowed(a, from, allowed),
        tool_results_allowed(b, 0, allowed),
        0 <= from <= a.len(),
    ensures
        tool_results_allowed(a + b, from, allowed),
{
    let c = a + b;
    assert forall|k: int| from <= k < c.len() && #[trigger] c[k].role == ChatRole::Tool implies names_allowed_tool(c[k], allowed) by {
        if k < a.len() {
            assert(c[k] == a[k]);
        } else {
            assert(c[k] == b[k - a.len()]);
        }
    }
}

/// How a turn goes on after one model answer.
#[derive(Debug)]
pub enum StepOutcome {
    /// The model answered with text: the turn ends with it.
    Answered(String),
    /// Every requested tool ran: the model is asked again.
    ToolsRan,
    /// The model or a tool call failed: the turn ends with this error.
    Failed(AgentError),
}

/// The text of an optional answer content (empty when absent).
pub open spec fn content_text(content: Option<Seq<char>>) -> Seq<char> {
    match content {
        Some(t) => t,
        None => Seq::empty(),
    }
}

/// What applying the model's `answer` does, ending in `outcome`:
/// - a failed answer ends the turn with its error and changes nothing;
/// - an answer without tool calls records its text (empty when absent), announces it,
///   and ends the turn with it;
/// - an answer with tool calls records them, then runs them in order: `ToolsRan` when
///   every call ran, `Failed` with the error of the call that stopped the run.
pub open spec fn answer_applied(
    answer: Result<AssistantTurn, AgentError>,
    outcome: StepOutcome,
    allowed: Seq<Seq<char>>,
    registered: RegistryView,
    s_old: Seq<ChatMessageView>,
    s_new: Seq<ChatMessageView>,
    e_old: Seq<LoopEmitView>,
    e_new: Seq<LoopEmitView>,
) -> bool {
    match answer {
        Err(e) => outcome == StepOutcome::Failed(e) && s_new == s_old && e_new == e_old,
        Ok(t) => if t@.tool_calls.len() == 0 {
            let text = content_text(t@.content);
            &&& outcome is Answered
            &&& outcome->Answered_0@ == text
            &&& s_new == s_old.push(assistant_text_view(text))
            &&& e_new == e_old.push(LoopEmitView::AssistantText { text })
        } else {
            let s_mid = s_old.push(assistant_tools_view(t@.content, t@.tool_calls));
            match outcome {
                StepOutcome::Answered(_) => false,
                StepOutcome::ToolsRan => exists|resps: Seq<Seq<char>>|
                    #[trigger] tool_run_done(t@.tool_calls, allowed, registered, resps, s_mid, s_new, e_old, e_new),
                StepOutcome::Failed(e) => exists|k: int, resps: Seq<Seq<char>>|
                    #[trigger] tool_run_stopped(t@.tool_calls, allowed, registered, k, resps, s_mid, s_new, e_old, e_new, e.message()),
            }
        },
    }
}

/// Apply one model answer to the turn (see [`answer_applied`]).
pub fn apply_model_answer(
    session: &mut Session,
    registry: &ToolRegistry,
    policy: &ToolPolicy,
    answer: Result<AssistantTurn, AgentError>,
    events: &mut Vec<LoopEmit>,
) -> (o: StepOutcome)
    ensures
        answer_applied(answer, o, policy@, registry@, old(session)@, final(session)@, old(events).deep_view(), final(events).deep_view()),
{
    let ghost s0 = session@;
    let ghost e0 = events.deep_view();
    match answer {
        Err(e) => StepOutcome::Failed(e),
        Ok(turn) => {
            if turn.tool_calls.len() == 0 {
                let text = match turn.content {
                    Some(c) => c,
                    None => String::new(),
                };
                session.push(ChatMessage::assistant_text(text.as_str()));
                events.push(LoopEmit::AssistantText { text: text.clone() });
                assert(events.deep_view() =~= e0.push(LoopEmitView::AssistantText { text: text@ }));
                let o = StepOutcome::Answered(text);
                assert(answer_applied(Ok(turn), o, policy@, registry@, s0, session@, e0, events.deep_view()));
                return o;
            }
            push_assistant_tool_turn(session, &turn);
            let ghost sm = session@;
            let calls = turn.tool_calls.as_slice();
            assert(calls.deep_view() =~= turn@.tool_calls);
            match execute_tool_calls(session, registry, policy, calls, events) {
                Ok(()) => {
                    let o = StepOutcome::ToolsRan;
                    assert(answer_applied(Ok(turn), o, policy@, registry@, s0, session@, e0, events.deep_view()));
                    o
                },
                Err(e) => {
                    let ghost m = e.message();
                    let o = StepOutcome::Failed(e);
                    assert(o->Failed_0.message() == m);
                    assert(answer_applied(Ok(turn), o, policy@, registry@, s0, session@, e0, events.deep_view()));
                    o
                },
            }
        },
    }
}

/// A message of the tool exchange: a tool result, or an assistant turn that asks for
/// tools.
pub open spec fn tool_exchange(m: ChatMessageView) -> bool {
    m.role == ChatRole::Tool || (m.role == ChatRole::Assistant && m.tool_calls is Some)
}

/// Every message of `msgs` from `from` on belongs to the tool exchange.
pub open spec fn tool_exchange_from(msgs: Seq<ChatMessageView>, from: int) -> bool {
    forall|k: int| from <= k < msgs.len() ==> tool_exchange(#[trigger] msgs[k])
}

/// The transcript entries of executed calls are tool results.
proof fn lemma_executed_are_results(calls: Seq<ToolCallRecordView>, resps: Seq<Seq<char>>)
    ensures
        executed_messages(calls, resps).len() == calls.len(),
        forall|k: int|
            0 <= k < executed_messages(calls, resps).len() ==> (#[trigger] executed_messages(calls, resps)[k]).role
                == ChatRole::Tool,
    decreases calls.len(),
{
    if calls.len() > 0 {
        lemma_executed_are_results(calls.drop_last(), resps);
        let m = executed_messages(calls, resps);
        let pm = executed_messages(calls.drop_last(), resps);
        assert forall|k: int| 0 <= k < m.len() implies (#[trigger] m[k]).role == ChatRole::Tool by {
            if k < pm.len() {
                assert(m[k] == pm[k]);
            }
        }
    }
}

/// One model answer keeps the transcript after `from` a tool exchange, but for the
/// text that ends the turn when the model answered.
proof fn lemma_answer_keeps_exchange(
    answer: Result<AssistantTurn, AgentError>,
    outcome: StepOutcome,
    allowed: Seq<Seq<char>>,
    registered: RegistryView,
    from: int,
    sb: Seq<ChatMessageView>,
    sn: Seq<ChatMessageView>,
    eb: Seq<LoopEmitView>,
    en: Seq<LoopEmitView>,
)
    requires
        0 <= from <= sb.len(),
        tool_exchange_from(sb, from),
        answer_applied(answer, outcome, allowed, registered, sb, sn, eb, en),
    ensures
        outcome is Answered ==> sn.len() == sb.len() + 1 && tool_exchange_from(sn.drop_last(), from),
        !(outcome is Answered) ==> tool_exchange_from(sn, from),
{
    match answer {
        Err(_) => {},
        Ok(t) => {
            if t@.tool_calls.len() == 0 {
                assert(sn.drop_last() =~= sb);
            } else {
                let cv = t@.tool_calls;
                let sc = sb.push(assistant_tools_view(t@.content, cv));
                assert(tool_exchange_from(sc, from)) by {
                    assert forall|k: int| from <= k < sc.len() implies tool_exchange(#[trigger] sc[k]) by {
                        if k < sb.len() {
                            assert(sc[k] == sb[k]);
                        }
                    }
                }
                let added = if outcome is ToolsRan {
                    let resps = choose|resps: Seq<Seq<char>>|
                        #[trigger] tool_run_done(cv, allowed, registered, resps, sc, sn, eb, en);
                    lemma_executed_are_results(cv, resps);
                    executed_messages(cv, resps)
                } else {
                    let message = outcome->Failed_0.message();
                    let (k, resps) = choose|k: int, resps: Seq<Seq<char>>|
                        #[trigger] tool_run_stopped(cv, allowed, registered, k, resps, sc, sn, eb, en, message);
                    lemma_executed_are_results(cv.take(k), resps);
                    executed_messages(cv.take(k), resps)
                };
                assert(sn == sc + added);
                assert forall|k: int| from <= k < sn.len() implies tool_exchange(#[trigger] sn[k]) by {
                    if k < sc.len() {
                        assert(sn[k] == sc[k]);
                    } else {
                        assert(sn[k] == added[k - sc.len()]);
                    }
                }
            }
        },
    }
}

/// What the loop keeps across one model answer: the transcript keeps its start and its
/// allowed tool results, the events keep their start, and no iteration mark is added.
proof fn lemma_answer_keeps_turn(
    answer: Result<AssistantTurn, AgentError>,
    outcome: StepOutcome,
    allowed: Seq<Seq<char>>,
    registered: RegistryView,
    s0: Seq<ChatMessageView>,
    s1: Seq<ChatMessageView>,
    sb: Seq<ChatMessageView>,
    sn: Seq<ChatMessageView>,
    e0len: nat,
    eb: Seq<LoopEmitView>,
    en: Seq<LoopEmitView>,
    max: nat,
)
    requires
        s1.len() == s0.len() + 1,
        sb.len() >= s1.len(),
        sb.take(s1.len() as int) == s1,
        tool_results_allowed(sb, s0.len() as int, allowed),
        eb.len() >= e0len,
        forall|k: int| e0len <= k < eb.len() ==> iteration_within(#[trigger] eb[k], max),
        answer_applied(answer, outcome, allowed, registered, sb, sn, eb, en),
    ensures
        sn.len() >= s1.len(),
        sn.take(s1.len() as int) == s1,
        tool_results_allowed(sn, s0.len() as int, allowed),
        en.len() >= eb.len(),
        en.take(eb.len() as int) == eb,
        forall|k: int| e0len <= k < en.len() ==> iteration_within(#[trigger] en[k], max),
        outcome is Answered ==> sn.last() == assistant_text_view(outcome->Answered_0@) && en.last()
            == (LoopEmitView::AssistantText { text: outcome->Answered_0@ }),
{
    match answer {
        Err(_) => {
            assert(en.take(eb.len() as int) =~= eb);
        },
        Ok(t) => {
            if t@.tool_calls.len() == 0 {
                assert(sn.take(s1.len() as int) =~= sb.take(s1.len() as int));
                assert(en.take(eb.len() as int) =~= eb);
                assert forall|k: int|
                    s0.len() <= k < sn.len() && #[trigger] sn[k].role == ChatRole::Tool implies names_allowed_tool(sn[k], allowed) by {
                    if k < sb.len() {
                        assert(sn[k] == sb[k]);
                    }
                }
                assert forall|k: int| e0len <= k < en.len() implies iteration_within(#[trigger] en[k], max) by {
                    if k < eb.len() {
                        assert(en[k] == eb[k]);
                    }
                }
            } else {
                let cv = t@.tool_calls;
                let sc = sb.push(assistant_tools_view(t@.content, cv));
                assert(sc.take(s1.len() as int) =~= sb.take(s1.len() as int));
                assert(tool_results_allowed(sc, s0.len() as int, allowed)) by {
                    assert forall|k: int|
                        s0.len() <= k < sc.len() && #[trigger] sc[k].role == ChatRole::Tool implies names_allowed_tool(sc[k], allowed) by {
                        if k < sb.len() {
                            assert(sc[k] == sb[k]);
                        }
                    }
                }
                if outcome is ToolsRan {
                    let resps = choose|resps: Seq<Seq<char>>| #[trigger] tool_run_done(cv, allowed, registered, resps, sc, sn, eb, en);
                    lemma_executed_allowed(cv, resps, allowed);
                    lemma_allowed_append(sc, s0.len() as int, executed_messages(cv, resps), allowed);
                    lemma_events_no_iteration(cv, resps);
                    let ee = executed_events(cv, resps);
                    assert(sn.take(s1.len() as int) =~= sc.take(s1.len() as int));
                    assert(en.take(eb.len() as int) =~= eb);
                    assert forall|k: int| e0len <= k < en.len() implies iteration_within(#[trigger] en[k], max) by {
                        if k >= eb.len() {
                            assert(en[k] == ee[k - eb.len()]);
                            assert(!(ee[k - eb.len()] is Iteration));
                        } else {
                            assert(en[k] == eb[k]);
                        }
                    }
                } else {
                    let message = outcome->Failed_0.message();
                    let (k, resps) = choose|k: int, resps: Seq<Seq<char>>|
                        #[trigger] tool_run_stopped(cv, allowed, registered, k, resps, sc, sn, eb, en, message);
                    lemma_executed_allowed(cv.take(k), resps, allowed);
                    lemma_allowed_append(sc, s0.len() as int, executed_messages(cv.take(k), resps), allowed);
                    lemma_events_no_iteration(cv.take(k), resps);
                    let ee = executed_events(cv.take(k), resps);
                    assert(sn.take(s1.len() as int) =~= sc.take(s1.len() as int));
                    assert(en.take(eb.len() as int) =~= eb);
                    assert forall|q: int| e0len <= q < en.len() implies iteration_within(#[trigger] en[q], max) by {
                        if q >= eb.len() + ee.len() {
                            if allowed.contains(cv[k].name) {
                                assert(en[q] == tool_phase(cv[k]));
                            }
                        } else if q >= eb.len() {
                            assert(en[q] == ee[q - eb.len()]);
                            assert(!(ee[q - eb.len()] is Iteration));
                        } else {
                            assert(en[q] == eb[q]);
                        }
                    }
                }
            }
        },
    }
}

/// Model call `i` of a turn: it announced iteration `i + 1`, then applied the model's
/// answer `answers[i]` with outcome `outcomes[i]`, taking the transcript from
/// `sessions[i]` to `sessions[i + 1]` and the events to `events[i + 1]`.
pub open spec fn call_applied(
    answers: Seq<Result<AssistantTurn, AgentError>>,
    outcomes: Seq<StepOutcome>,
    sessions: Seq<Seq<ChatMessageView>>,
    events: Seq<Seq<LoopEmitView>>,
    allowed: Seq<Seq<char>>,
    registered: RegistryView,
    i: int,
) -> bool {
    answer_applied(
        answers[i],
        outcomes[i],
        allowed,
        registered,
        sessions[i],
        sessions[i + 1],
        events[i].push(LoopEmitView::Iteration { n: (i + 1) as nat }),
        events[i + 1],
    )
}

/// A turn made `outcomes.len()` model calls, one after the other (see
/// [`call_applied`]); every call but the last ran the tools it asked for.
pub open spec fn loop_trace(
    answers: Seq<Result<AssistantTurn, AgentError>>,
    outcomes: Seq<StepOutcome>,
    sessions: Seq<Seq<ChatMessageView>>,
    events: Seq<Seq<LoopEmitView>>,
    allowed: Seq<Seq<char>>,
    registered: RegistryView,
) -> bool {
    &&& answers.len() == outcomes.len()
    &&& sessions.len() == outcomes.len() + 1
    &&& events.len() == outcomes.len() + 1
    &&& forall|i: int| 0 <= i < outcomes.len() ==> #[trigger] call_applied(answers, outcomes, sessions, events, allowed, registered, i)
    &&& forall|i: int| 0 <= i < outcomes.len() - 1 ==> (#[trigger] outcomes[i]) is ToolsRan
}

/// How a turn ends after model calls with `outcomes`: with the text of the last call's
/// answer, with the last call's error, or, when all `max` calls ran tools, with the
/// iteration bound error.
pub open spec fn turn_ended(outcomes: Seq<StepOutcome>, max: nat, r: Result<String, AgentError>) -> bool {
    if outcomes.len() > 0 && !(outcomes.last() is ToolsRan) {
        match outcomes.last() {
            StepOutcome::Answered(t) => r == Ok::<String, AgentError>(t),
            StepOutcome::Failed(e) => r == Err::<String, AgentError>(e),
            StepOutcome::ToolsRan => false,
        }
    } else {
        outcomes.len() == max && (r matches Err(e) && e.message() == exceeded_message(max))
    }
}

/// A trace of calls that all ran tools grows by one more call.
proof fn lemma_trace_extend(
    answers: Seq<Result<AssistantTurn, AgentError>>,
    outcomes: Seq<StepOutcome>,
    sessions: Seq<Seq<ChatMessageView>>,
    events: Seq<Seq<LoopEmitView>>,
    allowed: Seq<Seq<char>>,
    registered: RegistryView,
    answer: Result<AssistantTurn, AgentError>,
    outcome: StepOutcome,
    s_new: Seq<ChatMessageView>,
    e_new: Seq<LoopEmitView>,
)
    requires
        loop_trace(answers, outcomes, sessions, events, allowed, registered),
        forall|i: int| 0 <= i < outcomes.len() ==> (#[trigger] outcomes[i]) is ToolsRan,
        answer_applied(
            answer,
            outcome,
            allowed,
            registered,
            sessions.last(),
            s_new,
            events.last().push(LoopEmitView::Iteration { n: (outcomes.len() + 1) as nat }),
            e_new,
        ),
    ensures
        loop_trace(answers.push(answer), outcomes.push(outcome), sessions.push(s_new), events.push(e_new), allowed, registered),
{
    let a2 = answers.push(answer);
    let o2 = outcomes.push(outcome);
    let s2 = sessions.push(s_new);
    let e2 = events.push(e_new);
    let k = outcomes.len() as int;
    assert forall|i: int| 0 <= i < o2.len() implies #[trigger] call_applied(a2, o2, s2, e2, allowed, registered, i) by {
        if i < k {
            assert(call_applied(answers, outcomes, sessions, events, allowed, registered, i));
            assert(a2[i] == answers[i] && o2[i] == outcomes[i]);
            assert(s2[i] == sessions[i] && s2[i + 1] == sessions[i + 1]);
            assert(e2[i] == events[i] && e2[i + 1] == events[i + 1]);
        } else {
            assert(s2[i] == sessions.last() && e2[i] == events.last());
        }
    }
    assert forall|i: int| 0 <= i < o2.len() - 1 implies (#[trigger] o2[i]) is ToolsRan by {
        assert(o2[i] == outcomes[i]);
    }
}

/// The bootstrap text a turn's context uses: none without a workspace; with one, a
/// text that `load` can return for the workspace directory.
pub open spec fn bootstrap_from<F: Fn(&str) -> String>(ctx: ContextBuilder, load: F, boot: Seq<char>) -> bool {
    match ctx.workspace_view() {
        None => boot == Seq::<char>::empty(),
        Some(w) => exists|dir: &str, text: String| dir@ == w && text@ == boot && #[trigger] call_ensures(load, (dir,), text),
    }
}

/// `system` with the runtime note appended, when there is one.
pub open spec fn noted_system(system: Seq<char>, note: Option<&str>) -> Seq<char> {
    match note {
        Some(n) => with_runtime_note(system, n@),
        None => system,
    }
}

/// The context a model call is handed for the transcript `transcript`: the system
/// prompt with the bootstrap text and the runtime note, and the history window.
pub open spec fn turn_context<F: Fn(&str) -> String>(
    ctx: ContextBuilder,
    load: F,
    note: Option<&str>,
    transcript: Seq<ChatMessageView>,
    c: BuiltContext,
) -> bool {
    &&& c.history.deep_view() == history_window(transcript, ctx.max_history())
    &&& exists|boot: Seq<char>|
        #[trigger] bootstrap_from(ctx, load, boot) && c.system@ == noted_system(
            system_prompt_text(ctx.workspace_view(), boot),
            note,
        )
}

/// What a model call is handed for the transcript `transcript`: the context
/// [`turn_context`] describes, and the definitions of the tools named `tool_names`.
pub open spec fn handed<F: Fn(&str) -> String>(
    ctx: ContextBuilder,
    load: F,
    note: Option<&str>,
    transcript: Seq<ChatMessageView>,
    tool_names: Seq<Seq<char>>,
    c: BuiltContext,
    d: Seq<ToolDefinitionView>,
) -> bool {
    &&& turn_context(ctx, load, note, transcript, c)
    &&& d.map_values(|t: ToolDefinitionView| t.name) == tool_names
}

/// The model calls of a turn: call `i` found the model in state `states[i]`, was handed
/// `contexts[i]` and `defs[i]` as [`handed`] describes for the transcript `sessions[i]`,
/// and `answers[i]` is a result the model's `chat` can give for them.
pub open spec fn model_calls<M: ChatModel, F: Fn(&str) -> String>(
    states: Seq<M>,
    answers: Seq<Result<AssistantTurn, AgentError>>,
    sessions: Seq<Seq<ChatMessageView>>,
    contexts: Seq<BuiltContext>,
    defs: Seq<&[ToolDefinition]>,
    ctx: ContextBuilder,
    load: F,
    note: Option<&str>,
    tool_names: Seq<Seq<char>>,
) -> bool {
    &&& states.len() == answers.len() + 1
    &&& sessions.len() >= answers.len()
    &&& contexts.len() == answers.len()
    &&& defs.len() == answers.len()
    &&& forall|i: int|
        #![trigger contexts[i]]
        0 <= i < answers.len() ==> handed(ctx, load, note, sessions[i], tool_names, contexts[i], defs[i].deep_view())
            && exists|m: &mut M|
            #![trigger call_ensures(M::chat, (m, &contexts[i], defs[i]), answers[i])]
            *m == states[i] && call_ensures(M::chat, (m, &contexts[i], defs[i]), answers[i])
}

/// The model calls of a turn grow by one more call.
proof fn lemma_model_calls_extend<M: ChatModel, F: Fn(&str) -> String>(
    states: Seq<M>,
    answers: Seq<Result<AssistantTurn, AgentError>>,
    sessions: Seq<Seq<ChatMessageView>>,
    contexts: Seq<BuiltContext>,
    defs: Seq<&[ToolDefinition]>,
    ctx: ContextBuilder,
    load: F,
    note: Option<&str>,
    tool_names: Seq<Seq<char>>,
    after: M,
    answer: Result<AssistantTurn, AgentError>,
    c: BuiltContext,
    d: &[ToolDefinition],
    s_new: Seq<ChatMessageView>,
)
    requires
        model_calls(states, answers, sessions, contexts, defs, ctx, load, note, tool_names),
        sessions.len() == answers.len() + 1,
        handed(ctx, load, note, sessions.last(), tool_names, c, d.deep_view()),
        exists|m: &mut M| *m == states.last() && #[trigger] call_ensures(M::chat, (m, &c, d), answer),
    ensures
        model_calls(
            states.push(after),
            answers.push(answer),
            sessions.push(s_new),
            contexts.push(c),
            defs.push(d),
            ctx,
            load,
            note,
            tool_names,
        ),
{
    let st = states.push(after);
    let an = answers.push(answer);
    let se = sessions.push(s_new);
    let co = contexts.push(c);
    let de = defs.push(d);
    let k = answers.len() as int;
    assert forall|i: int|
        #![trigger co[i]]
        0 <= i < an.len() implies (handed(ctx, load, note, se[i], tool_names, co[i], de[i].deep_view()) && (exists|
            m: &mut M,
        |
            #![trigger call_ensures(M::chat, (m, &co[i], de[i]), an[i])]
            *m == st[i] && call_ensures(M::chat, (m, &co[i], de[i]), an[i]))) by {
        if i < k {
            assert(co[i] == contexts[i] && de[i] == defs[i] && an[i] == answers[i]);
            assert(st[i] == states[i] && se[i] == sessions[i]);
        } else {
            assert(co[i] == c && de[i] == d && an[i] == answer && st[i] == states.last() && se[i] == sessions.last());
        }
    }
}

/// What a turn's loop did, from transcript `s_old`, events `e_old` and model state
/// `m_old` to `s_new`, `e_new` and `m_new`, for the user message `user`, the registered
/// tools `registered`, the allowed tools `allowed`, at most `max` model calls, and
/// result `r`:
/// - the user message was appended first, and the transcript only grew;
/// - the events only grew, and every iteration mark counts from 1 up to `max`;
/// - tool results only come from allowed tools;
/// - a text answer ends the transcript and the events, and every message between the
///   user message and the end (the answer, when there is one) is an assistant turn
///   asking for tools or a tool result;
/// - with `max == 0` nothing but the user message happens and the bound error results;
/// - the transcript and events are those some sequence of model answers leaves, each
///   applied as [`apply_model_answer`] does ([`loop_trace`]); call `i` found the model
///   in state `states[i]` and was handed the context built for the transcript before it
///   and the allowed registered tools' definitions ([`model_calls`]); the answers are
///   results the model's `chat` can give for that; and `r` is how the sequence ends
///   ([`turn_ended`]).
pub open spec fn turn_loop_ran<M: ChatModel, F: Fn(&str) -> String>(
    s_old: Seq<ChatMessageView>,
    s_new: Seq<ChatMessageView>,
    e_old: Seq<LoopEmitView>,
    e_new: Seq<LoopEmitView>,
    m_old: M,
    m_new: M,
    user: Seq<char>,
    registered: RegistryView,
    allowed: Seq<Seq<char>>,
    ctx: ContextBuilder,
    max: nat,
    note: Option<&str>,
    load: F,
    r: Result<String, AgentError>,
) -> bool {
    &&& s_new.len() > s_old.len()
    &&& s_new.take(s_old.len() as int + 1) == s_old.push(user_view(user))
    &&& tool_results_allowed(s_new, s_old.len() as int, allowed)
    &&& e_new.len() >= e_old.len()
    &&& e_new.take(e_old.len() as int) == e_old
    &&& forall|k: int| e_old.len() <= k < e_new.len() ==> iteration_within(#[trigger] e_new[k], max)
    &&& r matches Ok(text) ==> s_new.last() == assistant_text_view(text@) && e_new.last()
        == (LoopEmitView::AssistantText { text: text@ })
    &&& r is Ok ==> tool_exchange_from(s_new.drop_last(), s_old.len() + 1int)
    &&& r is Err ==> tool_exchange_from(s_new, s_old.len() + 1int)
    &&& max == 0 ==> (r matches Err(e) && e.message() == exceeded_message(0)) && s_new == s_old.push(user_view(user))
        && e_new == e_old
    &&& exists|
        answers: Seq<Result<AssistantTurn, AgentError>>,
        outcomes: Seq<StepOutcome>,
        sessions: Seq<Seq<ChatMessageView>>,
        evs: Seq<Seq<LoopEmitView>>,
        states: Seq<M>,
        contexts: Seq<BuiltContext>,
        defs: Seq<&[ToolDefinition]>,
    |
        #![trigger loop_trace(answers, outcomes, sessions, evs, allowed, registered), model_calls(states, answers, sessions, contexts, defs, ctx, load, note, filter_allowed(registered.names, allowed))]
        loop_trace(answers, outcomes, sessions, evs, allowed, registered) && outcomes.len() <= max && sessions[0] == s_old.push(
            user_view(user),
        ) && evs[0] == e_old && sessions.last() == s_new && evs.last() == e_new && turn_ended(outcomes, max, r)
            && model_calls(states, answers, sessions, contexts, defs, ctx, load, note, filter_allowed(registered.names, allowed))
            && states[0] == m_old && states.last() == m_new
}

/// Append `user_message`, then run model/tool iterations until the model answers
/// with text and no tool calls. `load_bootstrap` reads the workspace bootstrap text
/// for a workspace directory (it is asked before each model call when the context
/// builder has a workspace). Events are appended to `events`.
///
/// What the loop does is [`turn_loop_ran`]: each model call is handed the context
/// built for the transcript before it (with the bootstrap text and the runtime note)
/// and the definitions of the registered tools the policy allows, its answer is
/// applied as [`apply_model_answer`] does, and the result is how the calls end.
pub fn run_turn_with_loop<M: ChatModel, F: Fn(&str) -> String>(
    session: &mut Session,
    user_message: &str,
    registry: &ToolRegistry,
    policy: &ToolPolicy,
    chat_model: &mut M,
    ctx: &ContextBuilder,
    config: &AgentLoopConfig,
    runtime_note: Option<&str>,
    load_bootstrap: &F,
    events: &mut Vec<LoopEmit>,
) -> (r: Result<String, AgentError>)
    requires
        forall|w: &str| call_requires(*load_bootstrap, (w,)),
    ensures
        turn_loop_ran(
            old(session)@,
            final(session)@,
            old(events).deep_view(),
            final(events).deep_view(),
            *old(chat_model),
            *final(chat_model),
            user_message@,
            registry@,
            policy@,
            *ctx,
            config.max_iterations as nat,
            runtime_note,
            *load_bootstrap,
            r,
        ),
{
    let ghost s0 = session@;
    let ghost e0 = events.deep_view();
    let ghost e0len = events@.len();
    session.push(ChatMessage::user(user_message));
    let ghost s1 = session@;
    assert(s1 == s0.push(user_view(user_message@)));
    assert(s1.take(s0.len() as int + 1) =~= s1);
    assert(tool_results_allowed(s1, s0.len() as int, policy@));
    let max = config.max_iterations;
    let mut iteration: u32 = 0;
    let ghost mut answers: Seq<Result<AssistantTurn, AgentError>> = Seq::empty();
    let ghost mut outcomes: Seq<StepOutcome> = Seq::empty();
    let ghost mut sessions: Seq<Seq<ChatMessageView>> = seq![s1];
    let ghost mut evs: Seq<Seq<LoopEmitView>> = seq![e0];
    let ghost mut states: Seq<M> = seq![*chat_model];
    let ghost mut contexts: Seq<BuiltContext> = Seq::empty();
    let ghost mut defs: Seq<&[ToolDefinition]> = Seq::empty();
    while iteration < max
        invariant
            iteration <= max,
            max == config.max_iterations,
            s0 == old(session)@,
            e0 == old(events).deep_view(),
            s1 == s0.push(user_view(user_message@)),
            iteration == 0 ==> session@ == s1 && events@ == old(events)@,
            forall|w: &str| call_requires(*load_bootstrap, (w,)),
            session@.len() >= s1.len(),
            session@.take(s1.len() as int) == s1,
            s1.len() == s0.len() + 1,
            tool_results_allowed(session@, s0.len() as int, policy@),
            tool_exchange_from(session@, s1.len() as int),
            events@.len() >= e0len,
            e0len == e0.len(),
            events.deep_view().take(e0len as int) == e0,
            forall|k: int| e0len <= k < events@.len() ==> iteration_within(#[trigger] events@[k]@, max as nat),
            loop_trace(answers, outcomes, sessions, evs, policy@, registry@),
            outcomes.len() == iteration,
            forall|i: int| 0 <= i < outcomes.len() ==> (#[trigger] outcomes[i]) is ToolsRan,
            sessions[0] == s1,
            evs[0] == e0,
            sessions.last() == session@,
            evs.last() == events.deep_view(),
            model_calls(
                states,
                answers,
                sessions,
                contexts,
                defs,
                *ctx,
                *load_bootstrap,
                runtime_note,
                filter_allowed(registry@.names, policy@),
            ),
            states[0] == *old(chat_model),
            states.last() == *chat_model,
        decreases max - iteration,
    {
        let ghost ev_before = events.deep_view();
        events.push(LoopEmit::Iteration { n: iteration + 1 });
        proof {
            assert(events.deep_view() =~= ev_before.push(LoopEmitView::Iteration { n: (iteration + 1) as nat }));
            assert(events.deep_view().take(e0len as int) =~= ev_before.take(e0len as int));
        }
        let bootstrap = match ctx.workspace() {
            Some(w) => {
                let b = load_bootstrap(w);
                assert(call_ensures(*load_bootstrap, (w,), b));
                assert(bootstrap_from(*ctx, *load_bootstrap, b@));
                b
            },
            None => String::new(),
        };
        assert(bootstrap_from(*ctx, *load_bootstrap, bootstrap@));
        let mut built = match ctx.build_for_session(session, bootstrap.as_str()) {
            Ok(b) => b,
            Err(e) => {
                return Err(e);
            },
        };
        let ghost plain_system = built.system@;
        match runtime_note {
            Some(note) => built.inject_runtime_note(note),
            None => {},
        }
        assert(built.system@ == noted_system(plain_system, runtime_note));
        assert(turn_context(*ctx, *load_bootstrap, runtime_note, sessions.last(), built));
        let definitions = registry.definitions_for_policy(policy);
        let ghost m_before = *chat_model;
        let defs_slice = definitions.as_slice();
        let answer = chat_model.chat(&built, defs_slice);
        proof {
            assert(handed(
                *ctx,
                *load_bootstrap,
                runtime_note,
                sessions.last(),
                filter_allowed(registry@.names, policy@),
                built,
                defs_slice.deep_view(),
            ));
        }
        assert(exists|m: &mut M|
            *m == m_before && #[trigger] call_ensures(
                M::chat,
                (m, &built, defs_slice),
                answer,
            ));
        let ghost av = answer;
        let ghost sb = session@;
        let ghost eb = events.deep_view();
        proof {
            assert forall|k: int| e0len <= k < eb.len() implies iteration_within(#[trigger] eb[k], max as nat) by {
                assert(eb[k] == events@[k]@);
            }
        }
        let outcome = apply_model_answer(session, registry, policy, answer, events);
        proof {
            assert(eb == evs.last().push(LoopEmitView::Iteration { n: (outcomes.len() + 1) as nat }));
            lemma_trace_extend(answers, outcomes, sessions, evs, policy@, registry@, av, outcome, session@, events.deep_view());
            lemma_model_calls_extend(
                states,
                answers,
                sessions,
                contexts,
                defs,
                *ctx,
                *load_bootstrap,
                runtime_note,
                filter_allowed(registry@.names, policy@),
                *chat_model,
                av,
                built,
                defs_slice,
                session@,
            );
            states = states.push(*chat_model);
            contexts = contexts.push(built);
            defs = defs.push(defs_slice);
            answers = answers.push(av);
            outcomes = outcomes.push(outcome);
            sessions = sessions.push(session@);
            evs = evs.push(events.deep_view());
            lemma_answer_keeps_turn(av, outcome, policy@, registry@, s0, s1, sb, session@, e0len, eb, events.deep_view(), max as nat);
            lemma_answer_keeps_exchange(av, outcome, policy@, registry@, s1.len() as int, sb, session@, eb, events.deep_view());
            assert(events.deep_view().take(e0len as int) =~= eb.take(e0len as int));
            assert forall|k: int| e0len <= k < events@.len() implies iteration_within(#[trigger] events@[k]@, max as nat) by {
                assert(events@[k]@ == events.deep_view()[k]);
            }
            if outcome is Answered {
                assert(events@.last()@ == events.deep_view().last());
            }
        }
        match outcome {
            StepOutcome::Answered(text) => {
                return Ok(text);
            },
            StepOutcome::Failed(e) => {
                return Err(e);
            },
            StepOutcome::ToolsRan => {},
        }
        proof {
            assert forall|i: int| 0 <= i < outcomes.len() implies (#[trigger] outcomes[i]) is ToolsRan by {
                if i < outcomes.len() - 1 {
                    assert(outcomes[i] == outcomes.drop_last()[i]);
                }
            }
        }
        iteration = iteration + 1;
    }
    let mut m = owned("agent loop exceeded max_iterations (");
    let digits = decimal_string(max as u64);
    m.append(digits.as_str());
    m.append(")");
    Err(AgentError::msg(m.as_str()))
}

/// Tool events hold no iteration marks.
proof fn lemma_events_no_iteration(calls: Seq<ToolCallRecordView>, resps: Seq<Seq<char>>)
    ensures
        forall|k: int|
            0 <= k < executed_events(calls, resps).len() ==> !(#[trigger] executed_events(calls, resps)[k] is Iteration),
    decreases calls.len(),
{
    if calls.len() > 0 {
        lemma_events_no_iteration(calls.drop_last(), resps);
        let e = executed_events(calls, resps);
        let p = executed_events(calls.drop_last(), resps);
        assert forall|k: int| 0 <= k < e.len() implies !(#[trigger] e[k] is Iteration) by {
            if k < p.len() {
                assert(e[k] == p[k]);
            }
        }
    }
}

} // verus!
