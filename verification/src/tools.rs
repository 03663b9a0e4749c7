//! Tools the model can call: the tool traits, the built-in ping tool, and the
//! registry that lists tools by name and runs them with JSON arguments.

use vstd::prelude::*;

use crate::errors::AgentError;
use crate::json::json_empty_object;
use crate::order::{lemma_lt_irreflexive, lemma_lt_total, lemma_lt_transitive, seq_lt, str_lt};
use crate::policy::ToolPolicy;
use crate::text::{owned, str_eq};

verus! {

/// A callable tool (string API for simple agents).
pub trait Tool: Send + Sync {
    fn name(&self) -> &str;

    fn call(&self, input: &str) -> Result<String, AgentError>;
}

/// A tool the model can call: name, description, JSON Schema of its parameters,
/// and a JSON-argument entry point. Tools whose work is done outside the library
/// implement [`ToolRunner`] and are registered as an [`ExternalTool`].
pub trait SchemaTool: Send + Sync {
    /// The name the tool reports.
    spec fn name_spec(&self) -> Seq<char>;

    /// The description the tool reports.
    spec fn description_spec(&self) -> Seq<char>;

    /// The parameter schema the tool reports.
    spec fn parameters_spec(&self) -> Seq<char>;

    /// `answer` is an answer the tool may give to a call with `args`: `Ok` with the
    /// reply text or `Err` with the error message.
    spec fn may_answer(&self, args: serde_json::Value, answer: Result<Seq<char>, Seq<char>>) -> bool;

    fn name(&self) -> (r: &str)
        ensures
            r@ == self.name_spec(),
    ;

    fn description(&self) -> (r: &str)
        ensures
            r@ == self.description_spec(),
    ;

    /// JSON Schema (compact JSON text) for the `parameters` field of a function tool.
    fn parameters_schema(&self) -> (r: String)
        ensures
            r@ == self.parameters_spec(),
    ;

    fn call_json(&self, args: &serde_json::Value) -> (r: Result<String, AgentError>)
        ensures
            self.may_answer(*args, answer_view(r)),
    ;
}

/// A tool's answer as plain values: the reply text, or the error message.
pub open spec fn answer_view(r: Result<String, AgentError>) -> Result<Seq<char>, Seq<char>> {
    match r {
        Ok(s) => Ok(s@),
        Err(e) => Err(e.message()),
    }
}

/// Mathematical model of a [`ToolDefinition`].
pub struct ToolDefinitionView {
    pub name: Seq<char>,
    pub description: Seq<char>,
    pub parameters: Seq<char>,
}

/// Function definition handed to the chat model.
#[derive(Debug, Clone)]
pub struct ToolDefinition {
    pub name: String,
    pub description: String,
    /// Compact JSON text of the parameter schema.
    pub parameters: String,
}

impl View for ToolDefinition {
    type V = ToolDefinitionView;

    open spec fn view(&self) -> ToolDefinitionView {
        ToolDefinitionView { name: self.name@, description: self.description@, parameters: self.parameters@ }
    }
}

impl DeepView for ToolDefinition {
    type V = ToolDefinitionView;

    open spec fn deep_view(&self) -> ToolDefinitionView {
        self@
    }
}

/// Empty toolset placeholder.
#[derive(Debug, Clone)]
pub struct NoTools;

impl Default for NoTools {
    fn default() -> (t: NoTools) {
        NoTools
    }
}

/// Demo tool: JSON arguments are ignored, it returns `pong`.
#[derive(Debug, Clone)]
pub struct PingTool;

impl Default for PingTool {
    fn default() -> (t: PingTool) {
        PingTool
    }
}

impl SchemaTool for PingTool {
    open spec fn name_spec(&self) -> Seq<char> {
        "ping"@
    }

    open spec fn description_spec(&self) -> Seq<char> {
        "Health check. No parameters."@
    }

    open spec fn parameters_spec(&self) -> Seq<char> {
        "{\"additionalProperties\":false,\"properties\":{},\"type\":\"object\"}"@
    }

    /// Whatever the arguments, the answer is `pong`.
    open spec fn may_answer(&self, args: serde_json::Value, answer: Result<Seq<char>, Seq<char>>) -> bool {
        answer == Ok::<Seq<char>, Seq<char>>("pong"@)
    }

    fn name(&self) -> &str
        returns
            "ping",
    {
        proof {
            reveal_strlit("ping");
        }
        "ping"
    }

    fn description(&self) -> (r: &str)
        ensures
            r@ == "Health check. No parameters."@,
    {
        "Health check. No parameters."
    }

    fn parameters_schema(&self) -> (r: String)
        ensures
            r@ == "{\"additionalProperties\":false,\"properties\":{},\"type\":\"object\"}"@,
    {
        owned("{\"additionalProperties\":false,\"properties\":{},\"type\":\"object\"}")
    }

    fn call_json(&self, args: &serde_json::Value) -> (r: Result<String, AgentError>)
        ensures
            r matches Ok(s) && s@ == "pong"@,
    {
        Ok(owned("pong"))
    }
}

impl Tool for PingTool {
    fn name(&self) -> &str
        returns
            "ping",
    {
        "ping"
    }

    fn call(&self, input: &str) -> (r: Result<String, AgentError>)
        ensures
            r matches Ok(s) && s@ == "pong"@,
    {
        let args = json_empty_object();
        self.call_json(&args)
    }
}

/// The work of a tool that is done outside the library: running it on JSON arguments.
pub trait ToolRunner: Send + Sync {
    fn run(&self, args: &serde_json::Value) -> Result<String, AgentError>;
}

/// A tool with a fixed name, description and parameter schema (compact JSON text),
/// whose calls a [`ToolRunner`] carries out.
pub struct ExternalTool {
    name: String,
    description: String,
    parameters: String,
    runner: Box<dyn ToolRunner>,
}

impl ExternalTool {
    /// The tool's name.
    pub closed spec fn name_view(&self) -> Seq<char> {
        self.name@
    }

    /// The tool's description.
    pub closed spec fn description_view(&self) -> Seq<char> {
        self.description@
    }

    /// The tool's parameter schema.
    pub closed spec fn parameters_view(&self) -> Seq<char> {
        self.parameters@
    }

    pub fn new(name: &str, description: &str, parameters: &str, runner: Box<dyn ToolRunner>) -> (t: ExternalTool)
        ensures
            t.name_view() == name@,
            t.description_view() == description@,
            t.parameters_view() == parameters@,
    {
        ExternalTool { name: owned(name), description: owned(description), parameters: owned(parameters), runner }
    }
}

impl SchemaTool for ExternalTool {
    open spec fn name_spec(&self) -> Seq<char> {
        self.name_view()
    }

    open spec fn description_spec(&self) -> Seq<char> {
        self.description_view()
    }

    open spec fn parameters_spec(&self) -> Seq<char> {
        self.parameters_view()
    }

    /// The runner does the work outside the library, so any answer may come back.
    open spec fn may_answer(&self, args: serde_json::Value, answer: Result<Seq<char>, Seq<char>>) -> bool {
        true
    }

    fn name(&self) -> (r: &str) {
        self.name.as_str()
    }

    fn description(&self) -> (r: &str) {
        self.description.as_str()
    }

    fn parameters_schema(&self) -> (r: String) {
        self.parameters.clone()
    }

    /// Runs the tool's runner on `args` and hands its result on.
    fn call_json(&self, args: &serde_json::Value) -> (r: Result<String, AgentError>) {
        self.runner.run(args)
    }
}

/// Registered tools, kept in name order with one tool per name.
pub struct ToolRegistry {
    names: Vec<String>,
    tools: Vec<Box<dyn SchemaTool>>,
}

/// The names `allowed` lists, in order.
pub open spec fn filter_allowed(names: Seq<Seq<char>>, allowed: Seq<Seq<char>>) -> Seq<Seq<char>>
    decreases names.len(),
{
    if names.len() == 0 {
        Seq::empty()
    } else {
        let rest = filter_allowed(names.drop_last(), allowed);
        if allowed.contains(names.last()) {
            rest.push(names.last())
        } else {
            rest
        }
    }
}

/// Names in strictly increasing order (so each occurs once).
pub open spec fn strictly_sorted(names: Seq<Seq<char>>) -> bool {
    forall|i: int, j: int| 0 <= i < j < names.len() ==> seq_lt(#[trigger] names[i], #[trigger] names[j])
}

/// The position of `name` in `names`.
pub open spec fn name_pos(names: Seq<Seq<char>>, name: Seq<char>) -> int {
    choose|i: int| 0 <= i < names.len() && names[i] == name
}

/// In a strictly sorted list a name sits at one position only.
proof fn lemma_name_pos(names: Seq<Seq<char>>, i: int)
    requires
        strictly_sorted(names),
        0 <= i < names.len(),
    ensures
        name_pos(names, names[i]) == i,
{
    let j = name_pos(names, names[i]);
    assert(0 <= j < names.len() && names[j] == names[i]);
    lemma_lt_irreflexive(names[i]);
    if j < i {
        assert(seq_lt(names[j], names[i]));
    } else if i < j {
        assert(seq_lt(names[i], names[j]));
    }
}

/// Mathematical model of a [`ToolRegistry`].
pub struct RegistryView {
    /// The registered names, in increasing order.
    pub names: Seq<Seq<char>>,
    /// The tool registered under each name.
    pub tools: Map<Seq<char>, Box<dyn SchemaTool>>,
}

/// The definition the model is shown for `tool`, registered under `name`.
pub open spec fn definition_of<T: SchemaTool + ?Sized>(name: Seq<char>, tool: Box<T>) -> ToolDefinitionView {
    ToolDefinitionView { name, description: tool.description_spec(), parameters: tool.parameters_spec() }
}

impl View for ToolRegistry {
    type V = RegistryView;

    closed spec fn view(&self) -> RegistryView {
        RegistryView {
            names: self.names.deep_view(),
            tools: Map::new(
                |n: Seq<char>| self.names.deep_view().contains(n),
                |n: Seq<char>| self.tools@[name_pos(self.names.deep_view(), n)],
            ),
        }
    }
}

/// The registered names are exactly the names the tool map holds a tool for.
pub proof fn lemma_registry_names_are_keys(r: ToolRegistry)
    ensures
        r@.tools.dom() == r@.names.to_set(),
{
    assert(r@.tools.dom() =~= r@.names.to_set());
}

/// Insert `name` with its `item` into the sorted `names` and the list beside it, or
/// replace the item when the name is there already. Returns the position and whether
/// an item was replaced.
fn place<T>(names: &mut Vec<String>, items: &mut Vec<T>, name: String, item: T) -> (r: (usize, bool))
    requires
        old(names).len() == old(items).len(),
        strictly_sorted(old(names).deep_view()),
    ensures
        r.0 < final(names).len(),
        r.0 <= old(names).len(),
        r.1 ==> r.0 < old(names).len(),
        final(names).len() == final(items).len(),
        strictly_sorted(final(names).deep_view()),
        r.1 ==> final(names).deep_view() == old(names).deep_view() && old(names).deep_view()[r.0 as int] == name@
            && final(items)@ == old(items)@.update(r.0 as int, item),
        !r.1 ==> final(names).deep_view() == old(names).deep_view().insert(r.0 as int, name@)
            && !old(names).deep_view().contains(name@) && final(items)@ == old(items)@.insert(r.0 as int, item),
{
    let n = names.len();
    let mut p: usize = 0;
    while p < n && str_lt(names[p].as_str(), name.as_str())
        invariant
            p <= n,
            n == names.len(),
            forall|k: int| 0 <= k < p ==> seq_lt(#[trigger] names@[k]@, name@),
        decreases n - p,
    {
        p = p + 1;
    }
    let ghost before = names.deep_view();
    if p < n && str_eq(names[p].as_str(), name.as_str()) {
        items.set(p, item);
        assert(before[p as int] == names@[p as int]@);
        (p, true)
    } else {
        proof {
            if p < n {
                assert(before[p as int] == names@[p as int]@);
                assert(!seq_lt(before[p as int], name@));
                lemma_lt_total(before[p as int], name@);
            }
        }
        names.insert(p, name);
        items.insert(p, item);
        proof {
            let nv = names.deep_view();
            assert(nv =~= before.insert(p as int, name@));
            assert forall|i: int, j: int| 0 <= i < j < nv.len() implies seq_lt(#[trigger] nv[i], #[trigger] nv[j]) by {
                if j < p {
                    assert(nv[i] == before[i] && nv[j] == before[j]);
                } else if j == p {
                    assert(nv[i] == before[i]);
                } else if i == p {
                    assert(nv[j] == before[j - 1]);
                    if j - 1 > p {
                        assert(seq_lt(before[p as int], before[j - 1]));
                        lemma_lt_transitive(name@, before[p as int], before[j - 1]);
                    }
                } else if i < p {
                    assert(nv[i] == before[i] && nv[j] == before[j - 1]);
                    if j - 1 > p {
                        assert(seq_lt(before[p as int], before[j - 1]));
                        lemma_lt_transitive(before[i], name@, before[p as int]);
                        lemma_lt_transitive(before[i], before[p as int], before[j - 1]);
                    } else {
                        lemma_lt_transitive(before[i], name@, before[p as int]);
                    }
                } else {
                    assert(nv[i] == before[i - 1] && nv[j] == before[j - 1]);
                }
            }
            assert(!before.contains(name@)) by {
                if before.contains(name@) {
                    let k = choose|k: int| 0 <= k < before.len() && before[k] == name@;
                    assert(before[k] == names@[k]@);
                    lemma_lt_irreflexive(name@);
                    if k < p {
                        assert(seq_lt(before[k], name@));
                    } else {
                        assert(nv[k + 1] == name@);
                        assert(seq_lt(nv[p as int], nv[k + 1]));
                    }
                }
            }
        }
        (p, false)
    }
}

impl ToolRegistry {
    /// Each name has one tool, and the names are strictly increasing.
    #[verifier::type_invariant]
    closed spec fn wf(self) -> bool {
        &&& self.names.len() == self.tools.len()
        &&& strictly_sorted(self.names.deep_view())
    }

    pub fn new() -> (r: ToolRegistry)
        ensures
            r@.names == Seq::<Seq<char>>::empty(),
            r@.tools == Map::<Seq<char>, Box<dyn SchemaTool>>::empty(),
    {
        let r = ToolRegistry { names: Vec::new(), tools: Vec::new() };
        assert(r@.names =~= Seq::<Seq<char>>::empty());
        assert(r@.tools =~= Map::<Seq<char>, Box<dyn SchemaTool>>::empty());
        r
    }

    /// Register a tool under the name it reports, replacing a tool already registered
    /// under that name; every other name keeps its tool.
    pub fn register(&mut self, tool: Box<dyn SchemaTool>)
        ensures
            final(self)@.names.to_set() == old(self)@.names.to_set().insert(tool.name_spec()),
            final(self)@.tools == old(self)@.tools.insert(tool.name_spec(), tool),
    {
        proof {
            use_type_invariant(&*self);
        }
        let name = owned(tool.name());
        let mut taken = ToolRegistry::new();
        std::mem::swap(self, &mut taken);
        proof {
            use_type_invariant(&taken);
        }
        let ToolRegistry { mut names, mut tools } = taken;
        let ghost nb = names.deep_view();
        let ghost tb = tools@;
        let (p, replaced) = place(&mut names, &mut tools, name, tool);
        proof {
            lemma_registry_step(nb, tb, names.deep_view(), tools@, p as int, replaced, tool.name_spec(), tool);
        }
        *self = ToolRegistry { names, tools };
    }

    /// Register a boxed tool (as [`ToolRegistry::register`] does).
    pub fn register_boxed(&mut self, tool: Box<dyn SchemaTool>)
        ensures
            final(self)@.names.to_set() == old(self)@.names.to_set().insert(tool.name_spec()),
            final(self)@.tools == old(self)@.tools.insert(tool.name_spec(), tool),
    {
        proof {
            use_type_invariant(&*self);
        }
        let name = owned(tool.name());
        let mut taken = ToolRegistry::new();
        std::mem::swap(self, &mut taken);
        proof {
            use_type_invariant(&taken);
        }
        let ToolRegistry { mut names, mut tools } = taken;
        let ghost nb = names.deep_view();
        let ghost tb = tools@;
        let (p, replaced) = place(&mut names, &mut tools, name, tool);
        proof {
            lemma_registry_step(nb, tb, names.deep_view(), tools@, p as int, replaced, tool.name_spec(), tool);
        }
        *self = ToolRegistry { names, tools };
    }

    /// The names of the registered tools (in name order).
    pub fn names(&self) -> (r: Vec<String>)
        ensures
            r.deep_view() == self@.names,
            strictly_sorted(r.deep_view()),
    {
        proof {
            use_type_invariant(self);
        }
        crate::policy::copy_strings(self.names.as_slice())
    }

    fn position(&self, name: &str) -> (r: Option<usize>)
        ensures
            match r {
                Some(i) => i < self.names.len() && self@.names[i as int] == name@,
                None => !self@.names.contains(name@),
            },
    {
        let n = self.names.len();
        let mut i: usize = 0;
        while i < n
            invariant
                i <= n,
                n == self.names.len(),
                forall|k: int| 0 <= k < i ==> self.names@[k]@ != name@,
            decreases n - i,
        {
            if str_eq(self.names[i].as_str(), name) {
                return Some(i);
            }
            i = i + 1;
        }
        proof {
            assert forall|k: int| 0 <= k < self@.names.len() implies self@.names[k] != name@ by {
                assert(self@.names[k] == self.names@[k]@);
            }
        }
        None
    }

    /// The tool registered under `name`, if any.
    pub fn get(&self, name: &str) -> (r: Option<&Box<dyn SchemaTool>>)
        ensures
            r is Some == self@.names.contains(name@),
            r matches Some(t) ==> *t == self@.tools[name@],
    {
        proof {
            use_type_invariant(self);
        }
        match self.position(name) {
            Some(i) => {
                proof {
                    lemma_name_pos(self.names.deep_view(), i as int);
                }
                Some(&self.tools[i])
            },
            None => None,
        }
    }

    /// Tool definitions visible to the model this turn: the registered tools that
    /// `policy` allows, in name order, each with the name it was registered under (the
    /// name the tool reported) and the description and parameter schema the tool reports.
    pub fn definitions_for_policy(&self, policy: &ToolPolicy) -> (defs: Vec<ToolDefinition>)
        ensures
            defs.deep_view().map_values(|d: ToolDefinitionView| d.name) == filter_allowed(self@.names, policy@),
            strictly_sorted(defs.deep_view().map_values(|d: ToolDefinitionView| d.name)),
            forall|i: int|
                0 <= i < defs.len() ==> #[trigger] defs.deep_view()[i] == definition_of(
                    defs.deep_view()[i].name,
                    self@.tools[defs.deep_view()[i].name],
                ),
    {
        proof {
            use_type_invariant(self);
            crate::laws::law_definitions_allowed_and_registered(self@.names, policy@);
        }
        let mut out: Vec<ToolDefinition> = Vec::new();
        let n = self.tools.len();
        let ghost ns = self@.names;
        for i in 0..n
            invariant
                n == self.tools.len(),
                n == self.names.len(),
                ns == self@.names,
                strictly_sorted(ns),
                out.deep_view().map_values(|d: ToolDefinitionView| d.name) == filter_allowed(ns.take(i as int), policy@),
                forall|k: int|
                    0 <= k < out.len() ==> #[trigger] out.deep_view()[k] == definition_of(
                        out.deep_view()[k].name,
                        self@.tools[out.deep_view()[k].name],
                    ),
        {
            let t: &Box<dyn SchemaTool> = &self.tools[i];
            let name = self.names[i].as_str();
            assert(ns.take(i + 1).drop_last() =~= ns.take(i as int));
            assert(ns.take(i + 1).last() == name@);
            let ghost prev = out.deep_view();
            if policy.allows(name) {
                let d = ToolDefinition {
                    name: owned(name),
                    description: owned(t.description()),
                    parameters: t.parameters_schema(),
                };
                proof {
                    assert(ns[i as int] == name@);
                    lemma_name_pos(ns, i as int);
                    assert(self@.tools[name@] == self.tools@[i as int]);
                    assert(*t == self.tools@[i as int]);
                    assert(d@ == definition_of(name@, self@.tools[name@]));
                }
                out.push(d);
                assert(out.deep_view() =~= prev.push(d@));
                assert(out.deep_view().map_values(|d: ToolDefinitionView| d.name) =~= prev.map_values(
                    |d: ToolDefinitionView| d.name,
                ).push(name@));
                assert forall|k: int| 0 <= k < out.len() implies #[trigger] out.deep_view()[k] == definition_of(
                    out.deep_view()[k].name,
                    self@.tools[out.deep_view()[k].name],
                ) by {
                    if k < prev.len() {
                        assert(out.deep_view()[k] == prev[k]);
                    }
                }
            }
        }
        assert(ns.take(n as int) =~= ns);
        out
    }

    /// Run the tool registered under `name` with `args`, once, and hand back its
    /// answer; an unknown name gives the error `unknown tool: <name>`.
    pub fn execute_json(&self, name: &str, args: &serde_json::Value) -> (r: Result<String, AgentError>)
        ensures
            !self@.names.contains(name@) ==> (r matches Err(e) && e.message() == "unknown tool: "@ + name@),
            self@.names.contains(name@) ==> self@.tools[name@].may_answer(*args, answer_view(r)),
    {
        match self.get(name) {
            None => {
                let mut m = owned("unknown tool: ");
                m.append(name);
                Err(AgentError::msg(m.as_str()))
            },
            Some(t) => t.call_json(args),
        }
    }
}

/// The model after one registration: the name set gains `key`, the tool map maps `key`
/// to `t` and keeps every other entry, and every other position holds what a position
/// of the old lists held.
proof fn lemma_registry_step<T: SchemaTool + ?Sized>(
    nb: Seq<Seq<char>>,
    tb: Seq<Box<T>>,
    na: Seq<Seq<char>>,
    ta: Seq<Box<T>>,
    p: int,
    replaced: bool,
    key: Seq<char>,
    t: Box<T>,
)
    requires
        nb.len() == tb.len(),
        na.len() == ta.len(),
        strictly_sorted(nb),
        strictly_sorted(na),
        0 <= p <= nb.len(),
        replaced ==> p < nb.len() && na == nb && nb[p] == key && ta == tb.update(p, t),
        !replaced ==> na == nb.insert(p, key) && ta == tb.insert(p, t),
    ensures
        na.to_set() == nb.to_set().insert(key),
        Map::new(|n: Seq<char>| na.contains(n), |n: Seq<char>| ta[name_pos(na, n)]) == Map::new(
            |n: Seq<char>| nb.contains(n),
            |n: Seq<char>| tb[name_pos(nb, n)],
        ).insert(key, t),
        forall|i: int|
            0 <= i < na.len() && i != p ==> {
                let j = if replaced || i < p { i } else { i - 1 };
                0 <= j < nb.len() && #[trigger] na[i] == nb[j] && ta[i] == tb[j]
            },
{
    let mb = Map::new(|n: Seq<char>| nb.contains(n), |n: Seq<char>| tb[name_pos(nb, n)]);
    let ma = Map::new(|n: Seq<char>| na.contains(n), |n: Seq<char>| ta[name_pos(na, n)]);
    if !replaced {
        nb.insert_ensures(p, key);
        tb.insert_ensures(p, t);
    }
    assert(na[p] == key && ta[p] == t);
    // Position `i` of the new lists holds what position `old_index(i)` of the old ones held.
    assert forall|i: int| 0 <= i < na.len() && i != p implies {
        let j = if replaced || i < p { i } else { i - 1 };
        0 <= j < nb.len() && #[trigger] na[i] == nb[j] && ta[i] == tb[j]
    } by {}
    assert forall|x: Seq<char>| #[trigger] na.contains(x) == (nb.contains(x) || x == key) by {
        if na.contains(x) {
            let i = choose|i: int| 0 <= i < na.len() && na[i] == x;
            if i != p {
                let j = if replaced || i < p { i } else { i - 1 };
                assert(na[i] == nb[j]);
            }
        }
        if nb.contains(x) {
            let j = choose|j: int| 0 <= j < nb.len() && nb[j] == x;
            if replaced || j < p {
                assert(na[j] == nb[j]);
            } else {
                assert(na[j + 1] == nb[j]);
            }
        }
        if x == key {
            assert(na[p] == x);
        }
    }
    assert(na.to_set() =~= nb.to_set().insert(key));
    assert forall|x: Seq<char>| #[trigger] ma.dom().contains(x) implies ma[x] == mb.insert(key, t)[x] by {
        let i = choose|i: int| 0 <= i < na.len() && na[i] == x;
        lemma_name_pos(na, i);
        assert(ma[x] == ta[i]);
        if x == key {
            lemma_name_pos(na, p);
        } else {
            assert(i != p);
            let j = if replaced || i < p { i } else { i - 1 };
            assert(na[i] == nb[j] && ta[i] == tb[j]);
            lemma_name_pos(nb, j);
            assert(nb.contains(x));
            assert(mb[x] == tb[j]);
        }
    }
    assert(ma =~= mb.insert(key, t));
}

impl Default for ToolRegistry {
    fn default() -> (r: ToolRegistry)
        ensures
            r@.names == Seq::<Seq<char>>::empty(),
            r@.tools == Map::<Seq<char>, Box<dyn SchemaTool>>::empty(),
    {
        ToolRegistry::new()
    }
}

} // verus!
