//! Per-server scope authorisation.
//!
//! A request to a server is authorised when the token holds at least one of
//! the scopes configured for that server. A wildcard such as `mcp:invoke:*`
//! is a literal scope like any other.

use vstd::prelude::*;

use crate::names;
use crate::names::{NameMap, NameSet};
use crate::text;

verus! {

/// Which scopes authorise which server.
pub struct ScopePolicy {
    server_scopes: NameMap<NameSet>,
}

/// Why a scope check rejected a request.
#[derive(Debug, Clone, Copy, PartialEq, Eq, Structural)]
pub enum ScopeRejection {
    /// The token holds none of the scopes that the server requires.
    InsufficientScope,
}

impl ScopeRejection {
    /// A short, stable reason for audit logging.
    pub fn reason(self) -> (r: &'static str)
        ensures
            r@ == "insufficient_scope"@,
    {
        "insufficient_scope"
    }
}

/// The scopes of a table, each list taken as a set.
pub open spec fn scope_sets(table: Seq<(Seq<char>, Vec<String>)>) -> Seq<
    (Seq<char>, Set<Seq<char>>),
> {
    table.map_values(|e: (Seq<char>, Vec<String>)| (e.0, text::views(e.1@).to_set()))
}

/// Whether `scope` admits a token to `server`.
pub open spec fn grants(
    policy: Seq<(Seq<char>, Set<Seq<char>>)>,
    server: Seq<char>,
    scope: Seq<char>,
) -> bool {
    names::find(policy, server) matches Some(scopes) && scopes.contains(scope)
}

impl View for ScopePolicy {
    type V = Seq<(Seq<char>, Set<Seq<char>>)>;

    closed spec fn view(&self) -> Seq<(Seq<char>, Set<Seq<char>>)> {
        names::deep(self.server_scopes@)
    }
}

impl ScopePolicy {
    /// Build a policy from the configured mapping.
    pub fn new(server_scopes: &NameMap<Vec<String>>) -> (policy: Self)
        ensures
            policy@ == scope_sets(server_scopes@),
    {
        let n = server_scopes.len();
        let mut sets: NameMap<NameSet> = NameMap::new();
        let mut i: usize = 0;
        while i < n
            invariant
                i <= n == server_scopes@.len(),
                names::distinct(server_scopes@),
                sets@.len() == i,
                forall|k: int|
                    0 <= k < i ==> (#[trigger] sets@[k]).0 == server_scopes@[k].0 && sets@[k].1@
                        == text::views(server_scopes@[k].1@).to_set(),
            decreases n - i,
        {
            let name = server_scopes.key_at(i).clone();
            let set = NameSet::from_list(server_scopes.value_at(i));
            proof {
                names::lemma_next_name(sets@, server_scopes@, set);
            }
            sets.insert(name, set);
            i = i + 1;
        }
        assert(names::deep(sets@) =~= scope_sets(server_scopes@));
        ScopePolicy { server_scopes: sets }
    }

    /// Decide whether a token's scopes authorise invoking `server`.
    ///
    /// On success returns a scope that granted access. A server that is not
    /// in the policy authorises nothing.
    pub fn authorise(&self, server: &str, token_scopes: &NameSet) -> (r: Result<
        String,
        ScopeRejection,
    >)
        ensures
            match r {
                Ok(scope) => token_scopes@.contains(scope@) && grants(self@, server@, scope@),
                Err(_) => forall|scope: Seq<char>| #[trigger]
                    token_scopes@.contains(scope) ==> !grants(self@, server@, scope),
            },
    {
        proof {
            names::lemma_find_deep(self.server_scopes@, server@);
        }
        match self.server_scopes.get(server) {
            Some(configured) => match token_scopes.shared(configured) {
                Some(scope) => Ok(scope),
                None => Err(ScopeRejection::InsufficientScope),
            },
            None => Err(ScopeRejection::InsufficientScope),
        }
    }
}

/// A scope table admits a scope to a server exactly where the server's list
/// names it: a wildcard admits nothing but itself.
pub proof fn scopes_are_literal(
    table: Seq<(Seq<char>, Vec<String>)>,
    server: Seq<char>,
    scope: Seq<char>,
)
    ensures
        grants(scope_sets(table), server, scope) <==> (names::find(table, server) matches Some(list)
            && text::views(list@).contains(scope)),
{
    let sets = scope_sets(table);
    names::lemma_position(table, server);
    let p = names::position(table, server);
    assert forall|i: int| 0 <= i < p implies (#[trigger] sets[i]).0 != server by {
        assert(table[i].0 != server);
    }
    if p < table.len() {
        assert(sets[p].0 == server);
    }
    names::lemma_position_is(sets, server, p);
}

// ---------------------------------------------------------------------------
// Laws
// ---------------------------------------------------------------------------

/// A server of the policy grants its own scopes, and a server that the policy
/// does not name grants none.
pub proof fn servers_grant_their_own_scopes_only(
    front: Seq<(Seq<char>, Set<Seq<char>>)>,
    server: Seq<char>,
    scopes: Set<Seq<char>>,
    back: Seq<(Seq<char>, Set<Seq<char>>)>,
    scope: Seq<char>,
)
    requires
        forall|i: int| 0 <= i < front.len() ==> (#[trigger] front[i]).0 != server,
    ensures
        !grants(front, server, scope),
        grants(front + seq![(server, scopes)] + back, server, scope) <==> scopes.contains(scope),
{
    names::the_first_pair_of_a_name_decides(front, server, scopes, back, scopes);
}

/// The policy of a table has its servers in its order, each with the scopes of
/// its list.
pub proof fn policies_follow_their_table(
    table: Seq<(Seq<char>, Vec<String>)>,
    i: int,
    scope: Seq<char>,
)
    requires
        0 <= i < table.len(),
    ensures
        scope_sets(table).len() == table.len(),
        scope_sets(table)[i].0 == table[i].0,
        scope_sets(table)[i].1.contains(scope) <==> exists|k: int|
            0 <= k < table[i].1@.len() && (#[trigger] table[i].1@[k])@ == scope,
{
    let list = table[i].1@;
    text::lemma_listed(list, scope);
}

} // verus!
