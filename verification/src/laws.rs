//! Properties that hold across the library's operations.

use vstd::prelude::*;

use crate::agent_loop::{answer_applied, not_authorized_message, LoopEmitView, StepOutcome};
use crate::browser::url_allowed;
use crate::errors::AgentError;
use crate::harness::{loop_emit_payload, numbered, PayloadView};
use crate::json::{json_text_parses, json_tool_object};
use crate::model::{flattened_prompt, history_lines, is_last_user, last_user_content, role_word, tool_lines, AssistantTurn};
use crate::text::{decimal, has_prefix, trim_seq};
use crate::tools::{RegistryView, ToolDefinitionView};
use crate::order::seq_lt;
use crate::text::{has_substring, occurs_at};
use crate::policy::ToolPolicy;
use crate::session::{
    capped_tail, from_first_user, history_window, is_first_user, is_legal_start, is_orphan, legal_tool_start,
    lemma_legal_start_unique, orphan_free, ChatMessageView, ChatRole,
};
use crate::tools::{filter_allowed, strictly_sorted, SchemaTool};

verus! {

proof fn lemma_min_orphan_free(msgs: Seq<ChatMessageView>, t: int)
    requires
        0 <= t <= msgs.len(),
        orphan_free(msgs, t),
    ensures
        exists|s: int| is_legal_start(msgs, s),
    decreases t,
{
    if exists|u: int| 0 <= u < t && #[trigger] orphan_free(msgs, u) {
        let u = choose|u: int| 0 <= u < t && #[trigger] orphan_free(msgs, u);
        lemma_min_orphan_free(msgs, u);
    } else {
        assert(is_legal_start(msgs, t));
    }
}

/// Every transcript has exactly one legal start, and `legal_tool_start` is it.
pub proof fn law_legal_start_exists(msgs: Seq<ChatMessageView>)
    ensures
        is_legal_start(msgs, legal_tool_start(msgs)),
{
    assert(orphan_free(msgs, msgs.len() as int));
    lemma_min_orphan_free(msgs, msgs.len() as int);
}

/// The model history is a suffix of the transcript, and never longer than the cap.
pub proof fn law_history_window_is_capped_suffix(msgs: Seq<ChatMessageView>, max: nat)
    ensures
        history_window(msgs, max).len() <= max,
        history_window(msgs, max) == msgs.subrange(
            msgs.len() - history_window(msgs, max).len(),
            msgs.len() as int,
        ),
{
    let w = history_window(msgs, max);
    if max == 0 || msgs.len() == 0 {
        assert(msgs.subrange(msgs.len() as int, msgs.len() as int) =~= w);
    } else {
        let n = if msgs.len() < max { msgs.len() } else { max };
        let tail = msgs.subrange(msgs.len() - n, msgs.len() as int);
        let fu = from_first_user(tail);
        assert(fu == tail.subrange(tail.len() - fu.len(), tail.len() as int)) by {
            if exists|i: int| is_first_user(tail, i) {
                let i = choose|i: int| is_first_user(tail, i);
                assert(fu =~= tail.subrange(tail.len() - fu.len(), tail.len() as int));
            } else {
                assert(fu =~= tail.subrange(0, tail.len() as int));
            }
        }
        let start = legal_tool_start(fu);
        law_legal_start_exists(fu);
        assert(w =~= msgs.subrange(msgs.len() - w.len(), msgs.len() as int));
    }
}

proof fn lemma_orphan_shift(msgs: Seq<ChatMessageView>, s: int, k: int)
    requires
        0 <= s <= msgs.len(),
        0 <= k < msgs.len() - s,
    ensures
        is_orphan(msgs.subrange(s, msgs.len() as int), 0, k) == is_orphan(msgs, s, s + k),
{
    let w = msgs.subrange(s, msgs.len() as int);
    assert(w[k] == msgs[s + k]);
    let id = crate::session::answered_id(msgs[s + k]);
    if exists|j: int| 0 <= j < k && #[trigger] crate::session::declares(w[j], id) {
        let j = choose|j: int| 0 <= j < k && #[trigger] crate::session::declares(w[j], id);
        assert(w[j] == msgs[s + j]);
        assert(s <= s + j < s + k && crate::session::declares(msgs[s + j], id));
    }
    if exists|j: int| s <= j < s + k && #[trigger] crate::session::declares(msgs[j], id) {
        let j = choose|j: int| s <= j < s + k && #[trigger] crate::session::declares(msgs[j], id);
        assert(w[j - s] == msgs[j]);
        assert(0 <= j - s < k && crate::session::declares(w[j - s], id));
    }
}

/// Tool boundaries of the model history are aligned: every tool result in it answers a
/// tool call declared by an assistant message earlier in the same history, so its legal
/// start is its first message.
pub proof fn law_history_window_tool_aligned(msgs: Seq<ChatMessageView>, max: nat)
    ensures
        orphan_free(history_window(msgs, max), 0),
        legal_tool_start(history_window(msgs, max)) == 0,
{
    let w = history_window(msgs, max);
    if max == 0 || msgs.len() == 0 {
        law_legal_start_exists(w);
    } else {
        let n = if msgs.len() < max { msgs.len() } else { max };
        let tail = msgs.subrange(msgs.len() - n, msgs.len() as int);
        let fu = from_first_user(tail);
        let start = legal_tool_start(fu);
        law_legal_start_exists(fu);
        assert(w == fu.subrange(start, fu.len() as int));
        assert forall|k: int| 0 <= k < w.len() implies !#[trigger] is_orphan(w, 0, k) by {
            lemma_orphan_shift(fu, start, k);
        }
    }
    assert(is_legal_start(w, 0));
    law_legal_start_exists(w);
    lemma_legal_start_unique(w, 0, legal_tool_start(w));
}

/// The model is shown the message just sent: when the transcript ends with a user
/// message and the history cap is at least one, the model history ends with that
/// message, and it is the latest user message the model sees.
pub proof fn law_model_sees_latest_user_message(msgs: Seq<ChatMessageView>, max: nat)
    requires
        msgs.len() > 0,
        msgs.last().role == ChatRole::User,
        max >= 1,
    ensures
        history_window(msgs, max).len() > 0,
        history_window(msgs, max).last() == msgs.last(),
        last_user_content(history_window(msgs, max)) == msgs.last().content,
{
    let n = if msgs.len() < max { msgs.len() } else { max };
    let tail = msgs.subrange(msgs.len() - n, msgs.len() as int);
    assert(tail.last() == msgs.last());
    let fu = from_first_user(tail);
    if !exists|i: int| is_first_user(tail, i) {
        lemma_some_first_user(tail, tail.len() - 1);
    }
    let i = choose|i: int| is_first_user(tail, i);
    assert(fu == tail.subrange(i, tail.len() as int));
    assert(fu.len() > 0 && fu.last() == msgs.last());
    let w = history_window(msgs, max);
    let start = legal_tool_start(fu);
    law_legal_start_exists(fu);
    assert(orphan_free(fu, fu.len() - 1)) by {
        assert forall|k: int| fu.len() - 1 <= k < fu.len() implies !#[trigger] is_orphan(fu, fu.len() - 1, k) by {
            assert(fu[k].role == ChatRole::User);
        }
    }
    assert(start < fu.len());
    assert(w == fu.subrange(start, fu.len() as int));
    assert(w.len() > 0 && w.last() == msgs.last());
    assert(is_last_user(w, w.len() - 1));
    let c = choose|c: int| is_last_user(w, c);
    if c < w.len() - 1 {
        assert(w[w.len() - 1].role != ChatRole::User);
    }
}

/// The model history starts at a user turn: when the last `max` messages hold a user
/// message and, from the first of them on, every tool result answers a call made
/// earlier, the history begins with that user message.
pub proof fn law_history_window_starts_at_user(msgs: Seq<ChatMessageView>, max: nat)
    requires
        max >= 1,
        exists|i: int| 0 <= i < capped_tail(msgs, max).len() && #[trigger] capped_tail(msgs, max)[i].role == ChatRole::User,
        orphan_free(from_first_user(capped_tail(msgs, max)), 0),
    ensures
        history_window(msgs, max).len() > 0,
        history_window(msgs, max)[0].role == ChatRole::User,
{
    let tail = capped_tail(msgs, max);
    let k = choose|i: int| 0 <= i < tail.len() && #[trigger] tail[i].role == ChatRole::User;
    lemma_some_first_user(tail, k);
    let i = choose|i: int| is_first_user(tail, i);
    let fu = from_first_user(tail);
    assert(fu == tail.subrange(i, tail.len() as int));
    assert(fu[0] == tail[i]);
    assert(is_legal_start(fu, 0));
    law_legal_start_exists(fu);
    lemma_legal_start_unique(fu, 0, legal_tool_start(fu));
}

/// A policy with an empty list lets no tool run.
pub proof fn law_empty_policy_denies_all(policy: ToolPolicy, name: Seq<char>)
    requires
        policy@.len() == 0,
    ensures
        !policy@.contains(name),
{
}

/// The events of a turn are numbered without gaps under one correlation id: numbering
/// `a` on from `last`, then `b` on from where `a` ended, numbers `a` followed by `b`.
pub proof fn law_event_numbers_continue(correlation: Seq<char>, last: nat, a: Seq<PayloadView>, b: Seq<PayloadView>)
    requires
        last + a.len() + b.len() <= u64::MAX,
    ensures
        numbered(correlation, last, a) + numbered(correlation, last + a.len(), b) == numbered(correlation, last, a + b),
{
    let l = numbered(correlation, last, a) + numbered(correlation, last + a.len(), b);
    let r = numbered(correlation, last, a + b);
    assert forall|i: int| 0 <= i < r.len() implies l[i] == r[i] by {
        if i >= a.len() {
            assert((a + b)[i] == b[i - a.len()]);
        }
    }
    assert(l =~= r);
}

/// The session store keeps sessions apart by key: after the session under `key` is
/// changed to `msgs` (as `get_or_create` and `get_mut` report), reading `key` gives
/// `msgs`, every other key reads as before, and no key appears or vanishes but `key`.
pub proof fn law_session_store_read_after_write(
    store: Map<Seq<char>, Seq<ChatMessageView>>,
    key: Seq<char>,
    msgs: Seq<ChatMessageView>,
    other: Seq<char>,
)
    requires
        other != key,
    ensures
        store.insert(key, msgs)[key] == msgs,
        store.insert(key, msgs).dom().contains(other) == store.dom().contains(other),
        store.dom().contains(other) ==> store.insert(key, msgs)[other] == store[other],
{
}

/// A sequence with a user message has a first user message.
proof fn lemma_some_first_user(s: Seq<ChatMessageView>, k: int)
    requires
        0 <= k < s.len(),
        s[k].role == ChatRole::User,
    ensures
        exists|i: int| is_first_user(s, i),
    decreases k,
{
    if exists|j: int| 0 <= j < k && #[trigger] s[j].role == ChatRole::User {
        let j = choose|j: int| 0 <= j < k && #[trigger] s[j].role == ChatRole::User;
        lemma_some_first_user(s, j);
    } else {
        assert(is_first_user(s, k));
    }
}

/// The tool definitions offered to the model name tools that are both registered and
/// allowed by the policy, and they stay in name order.
pub proof fn law_definitions_allowed_and_registered(names: Seq<Seq<char>>, allowed: Seq<Seq<char>>)
    ensures
        forall|i: int|
            0 <= i < filter_allowed(names, allowed).len() ==> names.contains(#[trigger] filter_allowed(names, allowed)[i])
                && allowed.contains(filter_allowed(names, allowed)[i]),
        strictly_sorted(names) ==> strictly_sorted(filter_allowed(names, allowed)),
    decreases names.len(),
{
    if names.len() > 0 {
        let prev = names.drop_last();
        law_definitions_allowed_and_registered(prev, allowed);
        let f = filter_allowed(names, allowed);
        let pf = filter_allowed(prev, allowed);
        assert forall|i: int| 0 <= i < f.len() implies names.contains(#[trigger] f[i]) && allowed.contains(f[i]) by {
            if i < pf.len() {
                assert(f[i] == pf[i]);
                let j = choose|j: int| 0 <= j < prev.len() && prev[j] == pf[i];
                assert(names[j] == prev[j]);
            } else {
                assert(f[i] == names.last());
                assert(names[names.len() - 1] == names.last());
            }
        }
        if strictly_sorted(names) {
            assert(strictly_sorted(prev)) by {
                assert forall|i: int, j: int| 0 <= i < j < prev.len() implies seq_lt(#[trigger] prev[i], #[trigger] prev[j]) by {
                    assert(prev[i] == names[i] && prev[j] == names[j]);
                }
            }
            assert forall|i: int, j: int| 0 <= i < j < f.len() implies seq_lt(#[trigger] f[i], #[trigger] f[j]) by {
                if j < pf.len() {
                    assert(f[i] == pf[i] && f[j] == pf[j]);
                } else {
                    assert(f[j] == names.last());
                    assert(f[i] == pf[i]);
                    let q = choose|q: int| 0 <= q < prev.len() && prev[q] == pf[i];
                    assert(names[q] == prev[q]);
                    assert(seq_lt(names[q], names[names.len() - 1]));
                }
            }
        }
    }
}

/// A turn stopped by a tool the policy does not allow ends with a permission-denied
/// status: the refusal's text always mentions `not authorized`.
pub proof fn law_unauthorized_tool_is_permission_denied(name: Seq<char>)
    ensures
        has_substring("agent error: "@ + not_authorized_message(name), "not authorized"@),
{
    reveal_strlit("agent error: ");
    reveal_strlit("tool ");
    reveal_strlit(" is not authorized for this turn");
    reveal_strlit("not authorized");
    let t = "agent error: "@ + not_authorized_message(name);
    let i: int = name.len() as int + 22;
    assert(t.subrange(i, i + 14) =~= "not authorized"@);
    assert(occurs_at(t, "not authorized"@, i));
}

/// Registering a tool and then looking its name up finds that tool, and every other
/// name that was registered is still registered with the tool it had. The registry's
/// model before and after is given by its names and its tool map.
pub proof fn law_register_then_lookup<T: SchemaTool + ?Sized>(
    names_before: Seq<Seq<char>>,
    tools_before: Map<Seq<char>, Box<T>>,
    names_after: Seq<Seq<char>>,
    tools_after: Map<Seq<char>, Box<T>>,
    tool: Box<T>,
    other: Seq<char>,
)
    requires
        tools_before.dom() == names_before.to_set(),
        names_after.to_set() == names_before.to_set().insert(tool.name_spec()),
        tools_after == tools_before.insert(tool.name_spec(), tool),
    ensures
        names_after.contains(tool.name_spec()),
        tools_after[tool.name_spec()] == tool,
        other != tool.name_spec() && names_before.contains(other) ==> names_after.contains(other)
            && tools_after[other] == tools_before[other],
{
    assert(names_after.to_set().contains(tool.name_spec()));
    if other != tool.name_spec() && names_before.contains(other) {
        assert(names_before.to_set().contains(other));
        assert(names_after.to_set().contains(other));
    }
}

/// When the last `max` messages hold a user message, the model history is the whole
/// transcript from the first of those user messages on (every earlier turn of the
/// conversation that fits under the cap is kept), provided no tool result from there on
/// lacks its call.
pub proof fn law_history_window_keeps_from_first_user(msgs: Seq<ChatMessageView>, max: nat, k: int)
    requires
        max >= 1,
        0 <= k < msgs.len(),
        msgs.len() - max <= k,
        msgs[k].role == ChatRole::User,
        forall|j: int| 0 <= j < k && msgs.len() - max <= j ==> #[trigger] msgs[j].role != ChatRole::User,
        orphan_free(msgs, k),
    ensures
        history_window(msgs, max) == msgs.subrange(k, msgs.len() as int),
{
    let n = if msgs.len() < max { msgs.len() } else { max };
    let start = msgs.len() - n;
    let tail = msgs.subrange(start, msgs.len() as int);
    assert(tail == capped_tail(msgs, max));
    let i = k - start;
    assert(tail[i] == msgs[k]);
    assert forall|j: int| 0 <= j < i implies #[trigger] tail[j].role != ChatRole::User by {
        assert(tail[j] == msgs[start + j]);
    }
    assert(is_first_user(tail, i));
    let c = choose|c: int| is_first_user(tail, c);
    if c < i {
        assert(tail[c].role != ChatRole::User);
    } else if c > i {
        assert(tail[i].role != ChatRole::User);
    }
    let fu = from_first_user(tail);
    assert(fu =~= msgs.subrange(k, msgs.len() as int));
    assert forall|q: int| 0 <= q < fu.len() implies !#[trigger] is_orphan(fu, 0, q) by {
        lemma_orphan_shift(msgs, k, q);
    }
    assert(is_legal_start(fu, 0));
    law_legal_start_exists(fu);
    lemma_legal_start_unique(fu, 0, legal_tool_start(fu));
    assert(history_window(msgs, max) =~= fu);
}

proof fn lemma_tool_lines_append(a: Seq<ToolDefinitionView>, b: Seq<ToolDefinitionView>)
    ensures
        tool_lines(a + b) == tool_lines(a) + tool_lines(b),
    decreases b.len(),
{
    if b.len() == 0 {
        assert(a + b =~= a);
        assert(tool_lines(a) + Seq::<char>::empty() =~= tool_lines(a));
    } else {
        lemma_tool_lines_append(a, b.drop_last());
        assert((a + b).drop_last() =~= a + b.drop_last());
        assert((a + b).last() == b.last());
        assert(tool_lines(a + b) =~= tool_lines(a) + tool_lines(b));
    }
}

/// The tool section of a flattened prompt has one line per offered tool, in order: no
/// tools give no text, one tool gives its JSON object and a newline (nothing when its
/// schema is not JSON), and the lines of two lists of tools are those of the first list
/// followed by those of the second.
pub proof fn law_tool_lines_one_per_tool(a: Seq<ToolDefinitionView>, b: Seq<ToolDefinitionView>, t: ToolDefinitionView)
    ensures
        tool_lines(Seq::empty()) == Seq::<char>::empty(),
        tool_lines(seq![t]) == (if json_text_parses(t.parameters) {
            json_tool_object(t.name, t.description, t.parameters) + "\n"@
        } else {
            Seq::<char>::empty()
        }),
        tool_lines(a + b) == tool_lines(a) + tool_lines(b),
{
    let one = seq![t];
    assert(one.drop_last() =~= Seq::<ToolDefinitionView>::empty());
    assert(one.last() == t);
    if json_text_parses(t.parameters) {
        assert(Seq::<char>::empty() + json_tool_object(t.name, t.description, t.parameters) + "\n"@
            =~= json_tool_object(t.name, t.description, t.parameters) + "\n"@);
    }
    lemma_tool_lines_append(a, b);
}

proof fn lemma_history_lines_append(a: Seq<ChatMessageView>, b: Seq<ChatMessageView>)
    ensures
        history_lines(a + b) == history_lines(a) + history_lines(b),
    decreases b.len(),
{
    if b.len() == 0 {
        assert(a + b =~= a);
        assert(history_lines(a) + Seq::<char>::empty() =~= history_lines(a));
    } else {
        lemma_history_lines_append(a, b.drop_last());
        assert((a + b).drop_last() =~= a + b.drop_last());
        assert((a + b).last() == b.last());
        assert(history_lines(a + b) =~= history_lines(a) + history_lines(b));
    }
}

/// The history part of a flattened prompt has one line per message, in order: a
/// message gives its role word, `: `, its content and a newline, and the lines of two
/// histories are those of the first followed by those of the second.
pub proof fn law_history_lines_one_per_message(a: Seq<ChatMessageView>, b: Seq<ChatMessageView>, m: ChatMessageView)
    ensures
        history_lines(Seq::empty()) == Seq::<char>::empty(),
        history_lines(seq![m]) == role_word(m.role) + ": "@ + m.content + "\n"@,
        history_lines(a + b) == history_lines(a) + history_lines(b),
        role_word(ChatRole::User) == "user"@,
        role_word(ChatRole::Assistant) == "assistant"@,
        role_word(ChatRole::Tool) == "tool"@,
{
    let one = seq![m];
    assert(one.drop_last() =~= Seq::<ChatMessageView>::empty());
    assert(one.last() == m);
    assert(history_lines(one.drop_last()) == Seq::<char>::empty());
    assert(history_lines(one) == history_lines(one.drop_last()) + role_word(m.role) + ": "@ + m.content + "\n"@);
    assert(Seq::<char>::empty() + role_word(m.role) + ": "@ + m.content + "\n"@ =~= role_word(m.role) + ": "@
        + m.content + "\n"@);
    lemma_history_lines_append(a, b);
}

/// The flattened prompt is the system text, the separator, the history lines, and,
/// when tools are offered, the tools heading followed by the tool lines.
pub proof fn law_flattened_prompt_sections(system: Seq<char>, h: Seq<ChatMessageView>, ts: Seq<ToolDefinitionView>)
    ensures
        ts.len() == 0 ==> flattened_prompt(system, h, ts) == system + "\n\n---\n\n"@ + history_lines(h),
        ts.len() > 0 ==> flattened_prompt(system, h, ts) == system + "\n\n---\n\n"@ + history_lines(h)
            + "\nAvailable tools (JSON function schema):\n"@ + tool_lines(ts),
{
}

/// The browser tool opens exactly the URLs whose trimmed text starts with `https://`,
/// `http://localhost` or `http://127.0.0.1` (whatever follows the prefix: a port, a
/// path or nothing).
pub proof fn law_browser_url_prefixes(url: Seq<char>)
    ensures
        has_prefix(trim_seq(url), "https://"@) ==> url_allowed(url),
        has_prefix(trim_seq(url), "http://localhost"@) ==> url_allowed(url),
        has_prefix(trim_seq(url), "http://127.0.0.1"@) ==> url_allowed(url),
        url_allowed(url) ==> has_prefix(trim_seq(url), "https://"@) || has_prefix(trim_seq(url), "http://localhost"@)
            || has_prefix(trim_seq(url), "http://127.0.0.1"@),
{
}

/// An answer that asks for tools is recorded in the transcript as it came: right after
/// the earlier messages stands an assistant message with the answer's text (empty when
/// it had none) and its tool calls, whatever the tools then do.
pub proof fn law_tool_answer_recorded_with_its_text(
    answer: Result<AssistantTurn, AgentError>,
    outcome: StepOutcome,
    allowed: Seq<Seq<char>>,
    registered: RegistryView,
    s_old: Seq<ChatMessageView>,
    s_new: Seq<ChatMessageView>,
    e_old: Seq<LoopEmitView>,
    e_new: Seq<LoopEmitView>,
)
    requires
        answer_applied(answer, outcome, allowed, registered, s_old, s_new, e_old, e_new),
        answer is Ok,
        answer->Ok_0@.tool_calls.len() > 0,
    ensures
        s_new.len() > s_old.len(),
        s_new.subrange(0, s_old.len() as int) == s_old,
        s_new[s_old.len() as int].role == ChatRole::Assistant,
        s_new[s_old.len() as int].content == (match answer->Ok_0@.content {
            Some(c) => c,
            None => Seq::<char>::empty(),
        }),
        s_new[s_old.len() as int].tool_calls == Some(answer->Ok_0@.tool_calls),
{
    let t = answer->Ok_0;
    let s_mid = s_old.push(crate::agent_loop::assistant_tools_view(t@.content, t@.tool_calls));
    let rest = match outcome {
        StepOutcome::ToolsRan => {
            let resps = choose|resps: Seq<Seq<char>>|
                #[trigger] crate::agent_loop::tool_run_done(t@.tool_calls, allowed, registered, resps, s_mid, s_new, e_old, e_new);
            crate::agent_loop::executed_messages(t@.tool_calls, resps)
        },
        StepOutcome::Failed(e) => {
            let (k, resps) = choose|k: int, resps: Seq<Seq<char>>|
                #[trigger] crate::agent_loop::tool_run_stopped(t@.tool_calls, allowed, registered, k, resps, s_mid, s_new, e_old, e_new, e.message());
            crate::agent_loop::executed_messages(t@.tool_calls.take(k), resps)
        },
        StepOutcome::Answered(_) => Seq::empty(),
    };
    assert(s_new == s_mid + rest);
    assert(s_new[s_old.len() as int] == s_mid[s_old.len() as int]);
    assert(s_new.subrange(0, s_old.len() as int) =~= s_old);
}

/// Each loop event reaches the client with its fields: a phase keeps its name and
/// detail, a tool run its tool name, request and response, the assistant's text becomes
/// a partial chunk, a log line keeps its level and message, and iteration `n` is logged
/// at level `info` as `model iteration <n>`.
pub proof fn law_loop_events_keep_their_fields(ev: LoopEmitView)
    ensures
        ev matches LoopEmitView::Phase { name, detail } ==> loop_emit_payload(ev) == (PayloadView::Phase { name, detail }),
        ev matches LoopEmitView::ToolInvoked { name, request, response } ==> loop_emit_payload(ev) == (PayloadView::Tool {
            tool_name: name,
            request,
            response,
        }),
        ev matches LoopEmitView::AssistantText { text } ==> loop_emit_payload(ev) == (PayloadView::Partial { chunk: text }),
        ev matches LoopEmitView::Log { level, message } ==> loop_emit_payload(ev) == (PayloadView::Log { level, message }),
        ev matches LoopEmitView::Iteration { n } ==> loop_emit_payload(ev) == (PayloadView::Log {
            level: "info"@,
            message: "model iteration "@ + decimal(n),
        }),
{
}

/// A text answer (no tool calls) ends the turn with its text: the transcript gains one
/// assistant message with that text (empty when the answer had none) and no tool calls,
/// the events gain that text, and the turn's result is that text.
pub proof fn law_text_answer_recorded_and_returned(
    answer: Result<AssistantTurn, AgentError>,
    outcome: StepOutcome,
    allowed: Seq<Seq<char>>,
    registered: RegistryView,
    s_old: Seq<ChatMessageView>,
    s_new: Seq<ChatMessageView>,
    e_old: Seq<LoopEmitView>,
    e_new: Seq<LoopEmitView>,
)
    requires
        answer_applied(answer, outcome, allowed, registered, s_old, s_new, e_old, e_new),
        answer is Ok,
        answer->Ok_0@.tool_calls.len() == 0,
    ensures
        ({
            let text = match answer->Ok_0@.content {
                Some(c) => c,
                None => Seq::<char>::empty(),
            };
            &&& s_new.len() == s_old.len() + 1
            &&& s_new.subrange(0, s_old.len() as int) == s_old
            &&& s_new[s_old.len() as int].role == ChatRole::Assistant
            &&& s_new[s_old.len() as int].content == text
            &&& s_new[s_old.len() as int].tool_calls is None
            &&& outcome matches StepOutcome::Answered(o) && o@ == text
            &&& e_new == e_old.push(LoopEmitView::AssistantText { text })
        }),
{
    assert(s_new.subrange(0, s_old.len() as int) =~= s_old);
}

} // verus!
