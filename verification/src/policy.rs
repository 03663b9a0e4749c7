//! Authorization policy for which tools may run on a turn.

use vstd::prelude::*;

use crate::text::{owned, str_eq};

verus! {

/// A copy of the list `v` with the same contents.
pub fn copy_strings(v: &[String]) -> (c: Vec<String>)
    ensures
        c.deep_view() == v.deep_view(),
{
    let mut c: Vec<String> = Vec::new();
    let n = v.len();
    for i in 0..n
        invariant
            n == v@.len(),
            c.len() == i,
            forall|k: int| 0 <= k < i ==> #[trigger] c@[k]@ == v@[k]@,
    {
        c.push(v[i].clone());
    }
    assert(c.deep_view() =~= v.deep_view());
    c
}

/// Which tool names may execute this turn. An empty list denies all tools.
#[derive(Debug, Clone)]
pub struct ToolPolicy {
    allowed: Vec<String>,
}

impl View for ToolPolicy {
    type V = Seq<Seq<char>>;

    closed spec fn view(&self) -> Seq<Seq<char>> {
        self.allowed.deep_view()
    }
}

/// The names the default policy allows: `ping`, `background_job`, `browser`.
pub open spec fn default_tool_names() -> Seq<Seq<char>> {
    seq!["ping"@, "background_job"@, "browser"@]
}

impl Default for ToolPolicy {
    fn default() -> (p: ToolPolicy)
        ensures
            p@ == default_tool_names(),
    {
        let mut allowed: Vec<String> = Vec::new();
        allowed.push(owned("ping"));
        allowed.push(owned("background_job"));
        allowed.push(owned("browser"));
        let p = ToolPolicy { allowed };
        assert(p@ =~= default_tool_names());
        p
    }
}

impl ToolPolicy {
    pub fn new(allowed: Vec<String>) -> (p: ToolPolicy)
        ensures
            p@ == allowed.deep_view(),
    {
        ToolPolicy { allowed }
    }

    pub fn allowed_names(&self) -> (names: &[String])
        ensures
            names.deep_view() == self@,
    {
        self.allowed.as_slice()
    }

    /// Whether the policy lets the tool `name` run.
    pub fn allows(&self, name: &str) -> (b: bool)
        ensures
            b == self@.contains(name@),
    {
        let n = self.allowed.len();
        for i in 0..n
            invariant
                n == self.allowed.len(),
                forall|k: int| 0 <= k < i ==> self.allowed@[k]@ != name@,
        {
            if str_eq(self.allowed[i].as_str(), name) {
                assert(self@[i as int] == name@);
                return true;
            }
        }
        assert forall|k: int| 0 <= k < self@.len() implies self@[k] != name@ by {
            assert(self@[k] == self.allowed@[k]@);
        }
        false
    }

    /// A copy of this policy.
    pub fn copy(&self) -> (p: ToolPolicy)
        ensures
            p@ == self@,
    {
        ToolPolicy { allowed: copy_strings(self.allowed.as_slice()) }
    }

    /// If `client` is empty, use `server_default`. Otherwise use the client list.
    pub fn for_request(client: &[String], server_default: &ToolPolicy) -> (p: ToolPolicy)
        ensures
            p@ == (if client@.len() == 0 {
                server_default@
            } else {
                client.deep_view()
            }),
    {
        if client.len() == 0 {
            return server_default.copy();
        }
        ToolPolicy::new(copy_strings(client))
    }
}

} // verus!
