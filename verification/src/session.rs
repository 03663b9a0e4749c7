//! Conversation sessions: chat-shaped history with safe windowing for tool turns.

use vstd::prelude::*;

use crate::text::str_eq;

verus! {

/// OpenAI-style roles for multi-turn + tool workflows.
#[derive(Debug, Clone, Copy, PartialEq, Eq, Structural)]
pub enum ChatRole {
    User,
    Assistant,
    Tool,
}

/// Mathematical model of a [`ToolCallRecord`].
pub struct ToolCallRecordView {
    pub id: Seq<char>,
    pub name: Seq<char>,
    pub arguments_json: Seq<char>,
}

/// One assistant-emitted tool invocation (model output).
#[derive(Debug, Clone, PartialEq, Eq)]
pub struct ToolCallRecord {
    pub id: String,
    pub name: String,
    /// JSON object string (model output).
    pub arguments_json: String,
}

impl View for ToolCallRecord {
    type V = ToolCallRecordView;

    open spec fn view(&self) -> ToolCallRecordView {
        ToolCallRecordView { id: self.id@, name: self.name@, arguments_json: self.arguments_json@ }
    }
}

impl DeepView for ToolCallRecord {
    type V = ToolCallRecordView;

    open spec fn deep_view(&self) -> ToolCallRecordView {
        self@
    }
}

/// Mathematical model of a [`ChatMessage`].
pub struct ChatMessageView {
    pub role: ChatRole,
    pub content: Seq<char>,
    pub tool_calls: Option<Seq<ToolCallRecordView>>,
    pub tool_call_id: Option<Seq<char>>,
    pub name: Option<Seq<char>>,
}

/// A single message in the session transcript.
#[derive(Debug, Clone, PartialEq, Eq)]
pub struct ChatMessage {
    pub role: ChatRole,
    pub content: String,
    pub tool_calls: Option<Vec<ToolCallRecord>>,
    pub tool_call_id: Option<String>,
    pub name: Option<String>,
}

/// The view of an optional string.
pub open spec fn opt_str_view(o: Option<String>) -> Option<Seq<char>> {
    match o {
        Some(s) => Some(s@),
        None => None,
    }
}

impl View for ChatMessage {
    type V = ChatMessageView;

    open spec fn view(&self) -> ChatMessageView {
        ChatMessageView {
            role: self.role,
            content: self.content@,
            tool_calls: match self.tool_calls {
                Some(v) => Some(v.deep_view()),
                None => None,
            },
            tool_call_id: opt_str_view(self.tool_call_id),
            name: opt_str_view(self.name),
        }
    }
}

impl DeepView for ChatMessage {
    type V = ChatMessageView;

    open spec fn deep_view(&self) -> ChatMessageView {
        self@
    }
}

impl ChatMessage {
    pub fn user(content: &str) -> (m: ChatMessage)
        ensures
            m@ == (ChatMessageView {
                role: ChatRole::User,
                content: content@,
                tool_calls: None,
                tool_call_id: None,
                name: None,
            }),
    {
        ChatMessage {
            role: ChatRole::User,
            content: content.to_owned(),
            tool_calls: None,
            tool_call_id: None,
            name: None,
        }
    }

    pub fn assistant_text(content: &str) -> (m: ChatMessage)
        ensures
            m@ == (ChatMessageView {
                role: ChatRole::Assistant,
                content: content@,
                tool_calls: None,
                tool_call_id: None,
                name: None,
            }),
    {
        ChatMessage {
            role: ChatRole::Assistant,
            content: content.to_owned(),
            tool_calls: None,
            tool_call_id: None,
            name: None,
        }
    }

    pub fn assistant_tools(tool_calls: Vec<ToolCallRecord>, content: &str) -> (m: ChatMessage)
        ensures
            m@ == (ChatMessageView {
                role: ChatRole::Assistant,
                content: content@,
                tool_calls: Some(tool_calls.deep_view()),
                tool_call_id: None,
                name: None,
            }),
    {
        ChatMessage {
            role: ChatRole::Assistant,
            content: content.to_owned(),
            tool_calls: Some(tool_calls),
            tool_call_id: None,
            name: None,
        }
    }

    pub fn tool_result(tool_call_id: &str, name: &str, content: &str) -> (m: ChatMessage)
        ensures
            m@ == (ChatMessageView {
                role: ChatRole::Tool,
                content: content@,
                tool_calls: None,
                tool_call_id: Some(tool_call_id@),
                name: Some(name@),
            }),
    {
        ChatMessage {
            role: ChatRole::Tool,
            content: content.to_owned(),
            tool_calls: None,
            tool_call_id: Some(tool_call_id.to_owned()),
            name: Some(name.to_owned()),
        }
    }
}

/// A copy of `r` with the same contents.
pub fn copy_record(r: &ToolCallRecord) -> (c: ToolCallRecord)
    ensures
        c@ == r@,
{
    ToolCallRecord { id: r.id.clone(), name: r.name.clone(), arguments_json: r.arguments_json.clone() }
}

/// A copy of the list `v` with the same contents.
pub fn copy_records(v: &Vec<ToolCallRecord>) -> (c: Vec<ToolCallRecord>)
    ensures
        c.deep_view() == v.deep_view(),
{
    let mut c: Vec<ToolCallRecord> = Vec::new();
    let n = v.len();
    for i in 0..n
        invariant
            n == v.len(),
            c.len() == i,
            forall|k: int| 0 <= k < i ==> #[trigger] c@[k]@ == v@[k]@,
    {
        c.push(copy_record(&v[i]));
    }
    assert(c.deep_view() =~= v.deep_view());
    c
}

fn copy_opt_string(o: &Option<String>) -> (c: Option<String>)
    ensures
        opt_str_view(c) == opt_str_view(*o),
{
    match o {
        Some(s) => Some(s.clone()),
        None => None,
    }
}

/// A copy of `m` with the same contents.
pub fn copy_message(m: &ChatMessage) -> (c: ChatMessage)
    ensures
        c@ == m@,
{
    let tool_calls = match &m.tool_calls {
        Some(v) => Some(copy_records(v)),
        None => None,
    };
    ChatMessage {
        role: m.role,
        content: m.content.clone(),
        tool_calls,
        tool_call_id: copy_opt_string(&m.tool_call_id),
        name: copy_opt_string(&m.name),
    }
}

/// Copies of the messages `msgs[from..to]`.
pub fn copy_range(msgs: &[ChatMessage], from: usize, to: usize) -> (r: Vec<ChatMessage>)
    requires
        from <= to <= msgs@.len(),
    ensures
        r.deep_view() == msgs.deep_view().subrange(from as int, to as int),
{
    let mut r: Vec<ChatMessage> = Vec::new();
    let mut i = from;
    while i < to
        invariant
            from <= i <= to,
            to <= msgs@.len(),
            r.len() == i - from,
            forall|k: int| 0 <= k < r.len() ==> #[trigger] r@[k]@ == msgs@[from + k]@,
        decreases to - i,
    {
        r.push(copy_message(&msgs[i]));
        i = i + 1;
    }
    assert(r.deep_view() =~= msgs.deep_view().subrange(from as int, to as int));
    r
}

// ---------------------------------------------------------------------------
// Tool-boundary legality
// ---------------------------------------------------------------------------

/// The tool call id that a tool result answers (empty when it names none).
pub open spec fn answered_id(m: ChatMessageView) -> Seq<char> {
    match m.tool_call_id {
        Some(t) => t,
        None => Seq::empty(),
    }
}

/// `m` is an assistant message that declares a tool call with the non-empty id `id`.
pub open spec fn declares(m: ChatMessageView, id: Seq<char>) -> bool {
    &&& m.role == ChatRole::Assistant
    &&& id.len() > 0
    &&& m.tool_calls matches Some(tcs)
    &&& exists|k: int| 0 <= k < tcs.len() && #[trigger] tcs[k].id == id
}

/// Message `k` is a tool result whose id no assistant message in `msgs[s..k]` declared.
pub open spec fn is_orphan(msgs: Seq<ChatMessageView>, s: int, k: int) -> bool {
    &&& msgs[k].role == ChatRole::Tool
    &&& answered_id(msgs[k]).len() > 0
    &&& !(exists|j: int| s <= j < k && #[trigger] declares(msgs[j], answered_id(msgs[k])))
}

/// The window `msgs[s..]` holds no orphan tool result.
pub open spec fn orphan_free(msgs: Seq<ChatMessageView>, s: int) -> bool {
    forall|k: int| s <= k < msgs.len() ==> !#[trigger] is_orphan(msgs, s, k)
}

/// The legal start: the earliest position from which no tool result lacks a matching
/// assistant tool call inside the window.
pub open spec fn is_legal_start(msgs: Seq<ChatMessageView>, s: int) -> bool {
    &&& 0 <= s <= msgs.len()
    &&& orphan_free(msgs, s)
    &&& forall|t: int| 0 <= t < s ==> !#[trigger] orphan_free(msgs, t)
}

pub open spec fn legal_tool_start(msgs: Seq<ChatMessageView>) -> int {
    choose|s: int| is_legal_start(msgs, s)
}

/// At most one position is a legal start.
pub proof fn lemma_legal_start_unique(msgs: Seq<ChatMessageView>, a: int, b: int)
    requires
        is_legal_start(msgs, a),
        is_legal_start(msgs, b),
    ensures
        a == b,
{
    if a < b {
        assert(!orphan_free(msgs, a));
    } else if b < a {
        assert(!orphan_free(msgs, b));
    }
}

/// Some id of the tool calls of `m` equals `id` (`m` being an assistant message).
spec fn declared_between(msgs: Seq<ChatMessageView>, s: int, e: int, id: Seq<char>) -> bool {
    exists|j: int| s <= j < e && #[trigger] declares(msgs[j], id)
}

/// Some tool result in `msgs[t..e]` is an orphan for the window starting at `t`.
spec fn orphan_before(msgs: Seq<ChatMessageView>, t: int, e: int) -> bool {
    exists|k: int| t <= k < e && #[trigger] is_orphan(msgs, t, k)
}

fn contains_id(ids: &Vec<String>, id: &String) -> (b: bool)
    ensures
        b == ids.deep_view().contains(id@),
{
    let n = ids.len();
    for i in 0..n
        invariant
            n == ids.len(),
            forall|k: int| 0 <= k < i ==> ids@[k]@ != id@,
    {
        if ids[i] == *id {
            assert(ids.deep_view()[i as int] == id@);
            return true;
        }
    }
    assert forall|k: int| 0 <= k < ids.deep_view().len() implies ids.deep_view()[k] != id@ by {
        assert(ids.deep_view()[k] == ids@[k]@);
    }
    false
}

/// Drop a prefix if a tool result has no matching assistant `tool_calls` id in-window:
/// returns the earliest index from which every tool result answers an id that an
/// assistant message at or after that index declared before it.
pub fn find_legal_tool_start(messages: &[ChatMessage]) -> (start: usize)
    ensures
        is_legal_start(messages.deep_view(), start as int),
        start as int == legal_tool_start(messages.deep_view()),
{
    let ghost msgs = messages.deep_view();
    let mut declared: Vec<String> = Vec::new();
    let mut start: usize = 0;
    let n = messages.len();

    let mut i: usize = 0;
    while i < n
        invariant
            i <= n,
            n == messages@.len(),
            msgs == messages.deep_view(),
            start <= i,
            forall|id: Seq<char>|
                #[trigger] declared.deep_view().contains(id) <==> declared_between(msgs, start as int, i as int, id),
            forall|k: int| start <= k < i ==> !#[trigger] is_orphan(msgs, start as int, k),
            forall|t: int| 0 <= t < start ==> #[trigger] orphan_before(msgs, t, i as int),
        decreases n - i,
    {
        let msg = &messages[i];
        assert(msgs[i as int] == msg@);
        assert forall|t: int| 0 <= t < start implies #[trigger] orphan_before(msgs, t, i + 1) by {
            assert(orphan_before(msgs, t, i as int));
            let k0 = choose|k0: int| t <= k0 < i && #[trigger] is_orphan(msgs, t, k0);
            assert(t <= k0 < i + 1 && is_orphan(msgs, t, k0));
        }
        match msg.role {
            ChatRole::Assistant => {
                match &msg.tool_calls {
                    Some(tcs) => {
                        let m = tcs.len();
                        let ghost before = declared.deep_view();
                        for j in 0..m
                            invariant
                                m == tcs.len(),
                                i < n,
                                n == msgs.len(),
                                msgs[i as int].tool_calls == Some(tcs.deep_view()),
                                msgs[i as int].role == ChatRole::Assistant,
                                forall|id: Seq<char>|
                                    #[trigger] declared.deep_view().contains(id) <==> (before.contains(id)
                                        || (id.len() > 0 && exists|q: int| 0 <= q < j && tcs@[q].id@ == id)),
                        {
                            let tc = &tcs[j];
                            let ghost prev = declared.deep_view();
                            if !tc.id.as_str().is_empty() {
                                declared.push(tc.id.clone());
                                assert(declared.deep_view() =~= prev.push(tc.id@));
                            }
                            assert forall|id: Seq<char>|
                                #[trigger] declared.deep_view().contains(id) <==> (before.contains(id)
                                    || (id.len() > 0 && exists|q: int| 0 <= q < j + 1 && tcs@[q].id@ == id)) by {
                                if tc.id@.len() > 0 {
                                    if declared.deep_view().contains(id) {
                                        let w = choose|w: int| 0 <= w < declared.deep_view().len() && declared.deep_view()[w] == id;
                                        if w < prev.len() {
                                            assert(prev[w] == id);
                                            assert(prev.contains(id));
                                        } else {
                                            assert(tcs@[j as int].id@ == id);
                                        }
                                    }
                                    if prev.contains(id) {
                                        let w = choose|w: int| 0 <= w < prev.len() && prev[w] == id;
                                        assert(declared.deep_view()[w] == id);
                                    }
                                    if id == tc.id@ {
                                        assert(declared.deep_view()[prev.len() as int] == id);
                                        assert(tcs@[j as int].id@ == id);
                                    }
                                }
                                if id.len() > 0 && exists|q: int| 0 <= q < j + 1 && tcs@[q].id@ == id {
                                    let q = choose|q: int| 0 <= q < j + 1 && tcs@[q].id@ == id;
                                    if q == j {
                                        assert(id == tc.id@);
                                        assert(declared.deep_view()[prev.len() as int] == id);
                                    } else {
                                        assert(prev.contains(id));
                                        let w = choose|w: int| 0 <= w < prev.len() && prev[w] == id;
                                        assert(declared.deep_view()[w] == id);
                                    }
                                }
                            }
                        }
                        assert forall|id: Seq<char>|
                            #[trigger] declared.deep_view().contains(id) <==> declared_between(msgs, start as int, i + 1, id) by {
                            if declared_between(msgs, start as int, i as int, id) {
                                let j0 = choose|j0: int| start <= j0 < i && #[trigger] declares(msgs[j0], id);
                                assert(start <= j0 < i + 1 && declares(msgs[j0], id));
                            }
                            if declared_between(msgs, start as int, i + 1, id) {
                                let j0 = choose|j0: int| start <= j0 < i + 1 && #[trigger] declares(msgs[j0], id);
                                if j0 == i {
                                    let tcsv = tcs.deep_view();
                                    let q = choose|q: int| 0 <= q < tcsv.len() && #[trigger] tcsv[q].id == id;
                                    assert(tcs@[q].id@ == id);
                                } else {
                                    assert(declared_between(msgs, start as int, i as int, id));
                                }
                            }
                            if declared.deep_view().contains(id) && !before.contains(id) {
                                let q = choose|q: int| 0 <= q < m && tcs@[q].id@ == id;
                                let tv = tcs.deep_view();
                                assert(tv.len() == m);
                                assert(tv[q].id == id);
                                assert(exists|k: int| 0 <= k < tv.len() && #[trigger] tv[k].id == id);
                                assert(msgs[i as int].tool_calls == Some(tv));
                                assert(id.len() > 0);
                                assert(msgs[i as int].role == ChatRole::Assistant);
                                let tcs2 = msgs[i as int].tool_calls->0;
                                assert(tcs2 == tv);
                                assert(tcs2[q].id == id);
                                assert(declares(msgs[i as int], id));
                            }
                        }
                    },
                    None => {
                        assert forall|id: Seq<char>|
                            #[trigger] declared.deep_view().contains(id) <==> declared_between(msgs, start as int, i + 1, id) by {
                            if declared_between(msgs, start as int, i + 1, id) {
                                let j0 = choose|j0: int| start <= j0 < i + 1 && #[trigger] declares(msgs[j0], id);
                                assert(j0 != i);
                                assert(declared_between(msgs, start as int, i as int, id));
                            }
                        }
                    },
                }
                assert forall|k: int| start <= k < i + 1 implies !#[trigger] is_orphan(msgs, start as int, k) by {
                    if k < i {
                    }
                }
            },
            ChatRole::Tool => {
                let orphan = match &msg.tool_call_id {
                    Some(tid) => !tid.as_str().is_empty() && !contains_id(&declared, tid),
                    None => false,
                };
                if orphan {
                    assert(is_orphan(msgs, start as int, i as int)) by {
                        assert(!declared_between(msgs, start as int, i as int, answered_id(msgs[i as int])));
                    }
                    assert forall|t: int| 0 <= t < i + 1 implies #[trigger] orphan_before(msgs, t, i + 1) by {
                        if t >= start {
                            let id = answered_id(msgs[i as int]);
                            if exists|j: int| t <= j < i && #[trigger] declares(msgs[j], id) {
                                let j0 = choose|j0: int| t <= j0 < i && #[trigger] declares(msgs[j0], id);
                                assert(declared_between(msgs, start as int, i as int, id));
                            }
                            assert(is_orphan(msgs, t, i as int));
                        }
                    }
                    start = i + 1;
                    declared.clear();
                    assert forall|id: Seq<char>|
                        #[trigger] declared.deep_view().contains(id) <==> declared_between(msgs, start as int, i + 1, id) by {
                        assert(declared.deep_view().len() == 0);
                    }
                } else {
                    assert forall|id: Seq<char>|
                        #[trigger] declared.deep_view().contains(id) <==> declared_between(msgs, start as int, i + 1, id) by {
                        if declared_between(msgs, start as int, i + 1, id) {
                            let j0 = choose|j0: int| start <= j0 < i + 1 && #[trigger] declares(msgs[j0], id);
                            assert(j0 != i);
                            assert(declared_between(msgs, start as int, i as int, id));
                        }
                    }
                    assert(!is_orphan(msgs, start as int, i as int)) by {
                        let id = answered_id(msgs[i as int]);
                        if id.len() > 0 {
                            assert(declared.deep_view().contains(id));
                            assert(declared_between(msgs, start as int, i as int, id));
                        }
                    }
                }
            },
            ChatRole::User => {
                assert forall|id: Seq<char>|
                    #[trigger] declared.deep_view().contains(id) <==> declared_between(msgs, start as int, i + 1, id) by {
                    if declared_between(msgs, start as int, i + 1, id) {
                        let j0 = choose|j0: int| start <= j0 < i + 1 && #[trigger] declares(msgs[j0], id);
                        assert(j0 != i);
                        assert(declared_between(msgs, start as int, i as int, id));
                    }
                }
            },
        }
        i = i + 1;
    }
    assert(is_legal_start(msgs, start as int)) by {
        assert forall|t: int| 0 <= t < start implies !#[trigger] orphan_free(msgs, t) by {
            assert(orphan_before(msgs, t, n as int));
            let k0 = choose|k0: int| t <= k0 < n && #[trigger] is_orphan(msgs, t, k0);
            assert(!orphan_free(msgs, t));
        }
    }
    proof {
        lemma_legal_start_unique(msgs, start as int, legal_tool_start(msgs));
    }
    start
}

// ---------------------------------------------------------------------------
// History windowing
// ---------------------------------------------------------------------------

/// `i` is the position of the first user message of `s`.
pub open spec fn is_first_user(s: Seq<ChatMessageView>, i: int) -> bool {
    &&& 0 <= i < s.len()
    &&& s[i].role == ChatRole::User
    &&& forall|j: int| 0 <= j < i ==> #[trigger] s[j].role != ChatRole::User
}

/// `s` from its first user message on (all of `s` when it has none).
pub open spec fn from_first_user(s: Seq<ChatMessageView>) -> Seq<ChatMessageView> {
    if exists|i: int| is_first_user(s, i) {
        s.subrange(choose|i: int| is_first_user(s, i), s.len() as int)
    } else {
        s
    }
}

/// The last `max` messages (all of them when there are fewer).
pub open spec fn capped_tail(msgs: Seq<ChatMessageView>, max: nat) -> Seq<ChatMessageView> {
    let n = if msgs.len() < max { msgs.len() } else { max };
    msgs.subrange(msgs.len() - n, msgs.len() as int)
}

/// The history handed to the model: the last `max` messages, starting at the first user
/// message among them, then with everything before the legal tool start dropped, so that
/// every tool result in the window answers a call declared inside it (nothing is left when
/// no such start exists before the end).
pub open spec fn history_window(msgs: Seq<ChatMessageView>, max: nat) -> Seq<ChatMessageView> {
    if max == 0 || msgs.len() == 0 {
        Seq::empty()
    } else {
        let sliced = from_first_user(capped_tail(msgs, max));
        sliced.subrange(legal_tool_start(sliced), sliced.len() as int)
    }
}

/// The position of the first user message, if any.
pub fn first_user_index(msgs: &[ChatMessage]) -> (r: Option<usize>)
    ensures
        match r {
            Some(i) => is_first_user(msgs.deep_view(), i as int),
            None => forall|j: int| 0 <= j < msgs@.len() ==> #[trigger] msgs.deep_view()[j].role != ChatRole::User,
        },
{
    let n = msgs.len();
    let mut i: usize = 0;
    while i < n
        invariant
            i <= n,
            n == msgs@.len(),
            forall|j: int| 0 <= j < i ==> #[trigger] msgs.deep_view()[j].role != ChatRole::User,
        decreases n - i,
    {
        assert(msgs.deep_view()[i as int] == msgs@[i as int]@);
        if msgs[i].role == ChatRole::User {
            return Some(i);
        }
        i = i + 1;
    }
    None
}

proof fn lemma_first_user_unique(s: Seq<ChatMessageView>, a: int, b: int)
    requires
        is_first_user(s, a),
        is_first_user(s, b),
    ensures
        a == b,
{
    if a < b {
        assert(s[a].role != ChatRole::User);
    } else if b < a {
        assert(s[b].role != ChatRole::User);
    }
}

/// In-memory session transcript (append-only).
#[derive(Debug, Clone)]
pub struct Session {
    pub messages: Vec<ChatMessage>,
}

impl View for Session {
    type V = Seq<ChatMessageView>;

    open spec fn view(&self) -> Seq<ChatMessageView> {
        self.messages.deep_view()
    }
}

impl Default for Session {
    fn default() -> (s: Session)
        ensures
            s@ == Seq::<ChatMessageView>::empty(),
    {
        Session { messages: Vec::new() }
    }
}

impl Session {
    /// Append one message to the transcript.
    pub fn push(&mut self, msg: ChatMessage)
        ensures
            final(self)@ == old(self)@.push(msg@),
    {
        self.messages.push(msg);
        assert(self.messages.deep_view() =~= old(self).messages.deep_view().push(msg@));
    }

    /// History slice suitable for the chat model: cap size, start at a user turn,
    /// align tool boundaries.
    pub fn get_history_for_model(&self, max_messages: usize) -> (h: Vec<ChatMessage>)
        ensures
            h.deep_view() == history_window(self@, max_messages as nat),
    {
        let len = self.messages.len();
        if max_messages == 0 || len == 0 {
            return Vec::new();
        }
        let n = if len < max_messages { len } else { max_messages };
        let ghost tail = self@.subrange(len - n, len as int);
        let mut sliced = copy_range(self.messages.as_slice(), len - n, len);
        assert(sliced.deep_view() == tail);

        let ghost fu = from_first_user(tail);
        match first_user_index(sliced.as_slice()) {
            Some(i) => {
                proof {
                    lemma_first_user_unique(tail, i as int, choose|k: int| is_first_user(tail, k));
                }
                let slen = sliced.len();
                sliced = copy_range(sliced.as_slice(), i, slen);
            },
            None => {
                assert(!exists|k: int| is_first_user(tail, k)) by {
                    if exists|k: int| is_first_user(tail, k) {
                        let k = choose|k: int| is_first_user(tail, k);
                        assert(tail[k].role == ChatRole::User);
                    }
                }
            },
        }
        assert(sliced.deep_view() == fu);

        let start = find_legal_tool_start(sliced.as_slice());
        let slen = sliced.len();
        if start > 0 {
            sliced = copy_range(sliced.as_slice(), start, slen);
        } else {
            assert(sliced.deep_view() == fu.subrange(0, fu.len() as int));
        }
        sliced
    }
}

// ---------------------------------------------------------------------------
// Session manager
// ---------------------------------------------------------------------------

/// Holds sessions keyed by client id (e.g. a turn's `session_id`).
#[derive(Debug)]
pub struct SessionManager {
    keys: Vec<String>,
    sessions: Vec<Session>,
}

impl SessionManager {
    /// Keys and sessions pair up one for one, and no key occurs twice.
    #[verifier::type_invariant]
    closed spec fn wf(&self) -> bool {
        &&& self.keys.len() == self.sessions.len()
        &&& forall|i: int, j: int|
            0 <= i < self.keys.len() && 0 <= j < self.keys.len() && i != j ==> #[trigger] self.keys@[i]@
                != #[trigger] self.keys@[j]@
    }

    closed spec fn has_key_at(&self, k: Seq<char>, i: int) -> bool {
        0 <= i < self.keys.len() && self.keys@[i]@ == k
    }

    closed spec fn index_of(&self, k: Seq<char>) -> int {
        choose|i: int| self.has_key_at(k, i)
    }

    /// The sessions held, by key.
    pub closed spec fn view(&self) -> Map<Seq<char>, Seq<ChatMessageView>> {
        Map::new(
            |k: Seq<char>| exists|i: int| self.has_key_at(k, i),
            |k: Seq<char>| self.sessions@[self.index_of(k)]@,
        )
    }

    proof fn lemma_index_of(&self, k: Seq<char>, i: int)
        requires
            self.wf(),
            self.has_key_at(k, i),
        ensures
            self.index_of(k) == i,
    {
        let c = self.index_of(k);
        assert(self.has_key_at(k, c));
        if c != i {
            assert(self.keys@[c]@ != self.keys@[i]@);
        }
    }

    fn find(&self, key: &str) -> (r: Option<usize>)
        requires
            self.wf(),
        ensures
            match r {
                Some(i) => self.has_key_at(key@, i as int),
                None => !self@.dom().contains(key@),
            },
    {
        let n = self.keys.len();
        let mut i: usize = 0;
        while i < n
            invariant
                i <= n,
                n == self.keys.len(),
                forall|j: int| 0 <= j < i ==> self.keys@[j]@ != key@,
            decreases n - i,
        {
            if str_eq(self.keys[i].as_str(), key) {
                return Some(i);
            }
            i = i + 1;
        }
        None
    }

    /// An empty manager.
    pub fn new() -> (m: SessionManager)
        ensures
            m@ == Map::<Seq<char>, Seq<ChatMessageView>>::empty(),
    {
        let m = SessionManager { keys: Vec::new(), sessions: Vec::new() };
        assert(m@ =~= Map::<Seq<char>, Seq<ChatMessageView>>::empty());
        m
    }

    /// The session stored under `key`, created empty when absent.
    pub fn get_or_create(&mut self, key: &str) -> (s: &mut Session)
        ensures
            s@ == (if old(self)@.dom().contains(key@) {
                old(self)@[key@]
            } else {
                Seq::<ChatMessageView>::empty()
            }),
            final(self)@ == old(self)@.insert(key@, final(s)@),
    {
        proof {
            use_type_invariant(&*self);
        }
        let idx = match self.find(key) {
            Some(i) => {
                proof {
                    self.lemma_index_of(key@, i as int);
                }
                i
            },
            None => {
                let mut taken = SessionManager::new();
                std::mem::swap(self, &mut taken);
                proof {
                    use_type_invariant(&taken);
                }
                let ghost before = taken;
                let SessionManager { mut keys, mut sessions } = taken;
                keys.push(key.to_owned());
                sessions.push(Session::default());
                let i = keys.len() - 1;
                proof {
                    assert forall|j: int| 0 <= j < before.keys.len() implies before.keys@[j]@ != key@ by {
                        if before.keys@[j]@ == key@ {
                            assert(before.has_key_at(key@, j));
                        }
                    }
                    assert forall|a: int, b: int|
                        0 <= a < keys.len() && 0 <= b < keys.len() && a != b implies #[trigger] keys@[a]@
                            != #[trigger] keys@[b]@ by {
                        if a < before.keys.len() && b < before.keys.len() {
                            assert(keys@[a] == before.keys@[a]);
                            assert(keys@[b] == before.keys@[b]);
                        }
                    }
                }
                *self = SessionManager { keys, sessions };
                assert(self.has_key_at(key@, i as int));
                proof {
                    assert(self.wf());
                    assert forall|k: Seq<char>| before@.dom().contains(k) implies self@.dom().contains(k) && self@[k] == before@[k] by {
                        let j = before.index_of(k);
                        assert(before.has_key_at(k, j));
                        before.lemma_index_of(k, j);
                        assert(self.has_key_at(k, j));
                        self.lemma_index_of(k, j);
                    }
                    assert forall|k: Seq<char>| self@.dom().contains(k) && k != key@ implies before@.dom().contains(k) by {
                        let j = self.index_of(k);
                        assert(self.has_key_at(k, j));
                        assert(j != i);
                        assert(before.has_key_at(k, j));
                    }
                    assert forall|k: Seq<char>| #[trigger] self@.remove(key@).dom().contains(k) == before@.remove(key@).dom().contains(k) by {
                        if before@.dom().contains(k) {
                            let j = before.index_of(k);
                            assert(before.has_key_at(k, j));
                            assert(self.has_key_at(k, j));
                        }
                    }
                    assert forall|k: Seq<char>| #[trigger] self@.remove(key@).dom().contains(k) implies self@.remove(key@)[k] == before@.remove(key@)[k] by {
                        assert(before@.dom().contains(k));
                        assert(self@[k] == before@[k]);
                    }
                    assert(self@.remove(key@) =~= before@.remove(key@));
                }
                i
            },
        };
        let ghost mid = *self;
        proof {
            mid.lemma_index_of(key@, idx as int);
            assert(mid@.remove(key@) =~= old(self)@.remove(key@));
            assert forall|m2: SessionManager, v: Session|
                #![trigger m2@, v@]
                m2.keys == mid.keys && m2.sessions@ == mid.sessions@.update(idx as int, v) implies m2.wf()
                    && m2@ == old(self)@.insert(key@, v@) by {
                SessionManager::lemma_replace(mid, m2, idx as int, key@, v);
                assert(m2@ =~= old(self)@.insert(key@, v@)) by {
                    assert forall|q: Seq<char>| q != key@ implies (#[trigger] mid@.dom().contains(q)
                        == old(self)@.dom().contains(q)) by {
                        assert(mid@.remove(key@).dom().contains(q) == old(self)@.remove(key@).dom().contains(q));
                    }
                    assert forall|q: Seq<char>| q != key@ && mid@.dom().contains(q) implies #[trigger] mid@[q]
                        == old(self)@[q] by {
                        assert(mid@.remove(key@)[q] == old(self)@.remove(key@)[q]);
                    }
                }
            }
        }
        let r = &mut self.sessions[idx];
        r
    }

    /// The session stored under `key`, if any.
    pub fn get_mut(&mut self, key: &str) -> (r: Option<&mut Session>)
        ensures
            r is Some <==> old(self)@.dom().contains(key@),
            r is None ==> final(self)@ == old(self)@,
            r matches Some(s) ==> s@ == old(self)@[key@] && final(self)@ == old(self)@.insert(key@, final(s)@),
    {
        proof {
            use_type_invariant(&*self);
        }
        match self.find(key) {
            None => None,
            Some(idx) => {
                let ghost mid = *self;
                proof {
                    mid.lemma_index_of(key@, idx as int);
                    assert forall|m2: SessionManager, v: Session|
                        #![trigger m2@, v@]
                        m2.keys == mid.keys && m2.sessions@ == mid.sessions@.update(idx as int, v) implies m2.wf()
                            && m2@ == old(self)@.insert(key@, v@) by {
                        SessionManager::lemma_replace(mid, m2, idx as int, key@, v);
                    }
                }
                Some(&mut self.sessions[idx])
            },
        }
    }

    proof fn lemma_replace(m: SessionManager, m2: SessionManager, i: int, k: Seq<char>, v: Session)
        requires
            m.wf(),
            m.has_key_at(k, i),
            m2.keys == m.keys,
            m2.sessions@ == m.sessions@.update(i, v),
        ensures
            m2.wf(),
            m2@ == m@.insert(k, v@),
    {
        assert(m2.wf());
        assert forall|q: Seq<char>| #[trigger] m2@.dom().contains(q) == m@.insert(k, v@).dom().contains(q) by {
            if m@.insert(k, v@).dom().contains(q) && q != k {
                let j = m.index_of(q);
                assert(m.has_key_at(q, j));
                assert(m2.has_key_at(q, j));
            }
            if q == k {
                assert(m2.has_key_at(q, i));
            }
            if m2@.dom().contains(q) {
                let j = m2.index_of(q);
                assert(m2.has_key_at(q, j));
                assert(m.has_key_at(q, j));
            }
        }
        assert forall|q: Seq<char>| m2@.dom().contains(q) implies #[trigger] m2@[q] == m@.insert(k, v@)[q] by {
            let j = m2.index_of(q);
            assert(m2.has_key_at(q, j));
            m2.lemma_index_of(q, j);
            assert(m.has_key_at(q, j));
            m.lemma_index_of(q, j);
            if q == k {
                m.lemma_index_of(k, i);
            }
        }
        assert(m2@ =~= m@.insert(k, v@));
    }
}

impl Default for SessionManager {
    fn default() -> (m: SessionManager)
        ensures
            m@ == Map::<Seq<char>, Seq<ChatMessageView>>::empty(),
    {
        SessionManager::new()
    }
}

} // verus!
