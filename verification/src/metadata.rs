//! The OAuth 2.0 Protected Resource Metadata document (RFC 9728).

use vstd::prelude::*;

use crate::authentication::AuthenticationConfig;
use crate::order;
use crate::text;

verus! {

/// A Protected Resource Metadata document.
#[derive(Debug)]
pub struct ProtectedResourceMetadata {
    /// The resource identifier.
    pub resource: String,
    /// The authorisation servers that issue tokens for the resource.
    pub authorization_servers: Vec<String>,
    /// Every scope that the gateway recognises.
    pub scopes_supported: Vec<String>,
    /// How a client may present a bearer token.
    pub bearer_methods_supported: Vec<String>,
    /// A documentation URL.
    pub resource_documentation: Option<String>,
}

/// A metadata document as a mathematical value.
pub struct Metadata {
    pub resource: Seq<char>,
    pub authorization_servers: Seq<Seq<char>>,
    pub scopes_supported: Seq<Seq<char>>,
    pub bearer_methods_supported: Seq<Seq<char>>,
    pub resource_documentation: Option<Seq<char>>,
}

impl View for ProtectedResourceMetadata {
    type V = Metadata;

    open spec fn view(&self) -> Metadata {
        Metadata {
            resource: self.resource@,
            authorization_servers: text::views(self.authorization_servers@),
            scopes_supported: text::views(self.scopes_supported@),
            bearer_methods_supported: text::views(self.bearer_methods_supported@),
            resource_documentation: text::opt(self.resource_documentation),
        }
    }
}

/// The scopes that a table names, for whichever server.
pub open spec fn named_scopes(table: Seq<(Seq<char>, Seq<Seq<char>>)>) -> Set<Seq<char>>
    decreases table.len(),
{
    if table.len() == 0 {
        Set::empty()
    } else {
        named_scopes(table.drop_last()).union(table.last().1.to_set())
    }
}

/// The sorted union of the scopes of a table, each scope once.
fn sorted_scopes(config: &AuthenticationConfig) -> (scopes: Vec<String>)
    ensures
        order::ascending(text::views(scopes@)),
        text::views(scopes@).to_set() == named_scopes(config@.server_scopes),
{
    let ghost table = config@.server_scopes;
    let mut scopes: Vec<String> = Vec::new();
    let mut i: usize = 0;
    assert(text::views(scopes@).to_set() =~= Set::<Seq<char>>::empty());
    assert(table.take(0) =~= Seq::empty());
    while i < config.server_scopes.len()
        invariant
            i <= config.server_scopes@.len(),
            table == config@.server_scopes,
            table.len() == config.server_scopes@.len(),
            order::ascending(text::views(scopes@)),
            text::views(scopes@).to_set() == named_scopes(table.take(i as int)),
        decreases config.server_scopes@.len() - i,
    {
        let list = config.server_scopes.value_at(i);
        let ghost names = text::views(list@);
        let ghost base = text::views(scopes@).to_set();
        let mut j: usize = 0;
        assert(base.union(names.take(0).to_set()) =~= base);
        while j < list.len()
            invariant
                j <= list@.len(),
                names == text::views(list@),
                order::ascending(text::views(scopes@)),
                text::views(scopes@).to_set() == base.union(names.take(j as int).to_set()),
            decreases list.len() - j,
        {
            order::insert_ascending(&mut scopes, list[j].clone());
            j = j + 1;
            proof {
                let next = names.take(j as int);
                let prev = names.take(j - 1);
                assert(next =~= prev.push(names[j - 1]));
                assert(next.to_set() =~= prev.to_set().insert(names[j - 1])) by {
                    assert forall|x: Seq<char>| #[trigger] next.contains(x) <==> (prev.contains(x)
                        || x == names[j - 1]) by {
                        if prev.contains(x) {
                            let k = choose|k: int| 0 <= k < prev.len() && prev[k] == x;
                            assert(next[k] == x);
                        }
                        assert(next[j - 1] == names[j - 1]);
                    }
                }
                assert(base.union(prev.to_set()).insert(names[j - 1]) =~= base.union(
                    next.to_set(),
                ));
            }
        }
        i = i + 1;
        proof {
            assert(names.take(names.len() as int) =~= names);
            assert(table.take(i as int).drop_last() =~= table.take(i - 1));
            assert(table.take(i as int).last() == table[i - 1]);
            assert(table[i - 1].1 == names);
        }
    }
    assert(table.take(table.len() as int) =~= table);
    scopes
}

/// Build the metadata document from the configuration.
///
/// The scopes are the union over all servers, sorted, each scope once. The
/// token is presented in a header only.
pub fn protected_resource_metadata(config: &AuthenticationConfig) -> (m: ProtectedResourceMetadata)
    ensures
        m@.resource == config@.resource,
        m@.authorization_servers == config@.issuer,
        order::ascending(m@.scopes_supported),
        m@.scopes_supported.to_set() == named_scopes(config@.server_scopes),
        m@.bearer_methods_supported == seq!["header"@],
        m@.resource_documentation == config@.resource_documentation_url,
{
    let mut servers: Vec<String> = Vec::new();
    let mut i: usize = 0;
    while i < config.issuer.len()
        invariant
            i <= config.issuer@.len(),
            text::views(servers@) == config@.issuer.take(i as int),
        decreases config.issuer.len() - i,
    {
        let ghost before = servers@;
        servers.push(config.issuer[i].url.clone());
        i = i + 1;
        proof {
            assert(text::views(servers@) =~= text::views(before).push(config@.issuer[i - 1]));
            assert(config@.issuer.take(i as int) =~= config@.issuer.take(i - 1).push(
                config@.issuer[i - 1],
            ));
        }
    }
    assert(config@.issuer.take(config@.issuer.len() as int) =~= config@.issuer);
    let mut methods: Vec<String> = Vec::new();
    methods.push("header".to_owned());
    assert(text::views(methods@) =~= seq!["header"@]);
    ProtectedResourceMetadata {
        resource: config.resource.clone(),
        authorization_servers: servers,
        scopes_supported: sorted_scopes(config),
        bearer_methods_supported: methods,
        resource_documentation: text::copy_opt(&config.resource_documentation_url),
    }
}

/// A scope is published exactly where some server's list names it.
pub proof fn published_scopes_are_the_configured_ones(
    table: Seq<(Seq<char>, Seq<Seq<char>>)>,
    scope: Seq<char>,
)
    ensures
        named_scopes(table).contains(scope) <==> exists|i: int|
            0 <= i < table.len() && (#[trigger] table[i]).1.contains(scope),
    decreases table.len(),
{
    if table.len() > 0 {
        let n = table.len() - 1;
        let rest = table.drop_last();
        published_scopes_are_the_configured_ones(rest, scope);
        if named_scopes(rest).contains(scope) {
            let i = choose|i: int| 0 <= i < rest.len() && (#[trigger] rest[i]).1.contains(scope);
            assert(table[i] == rest[i]);
        }
        if exists|i: int| 0 <= i < table.len() && (#[trigger] table[i]).1.contains(scope) {
            let i = choose|i: int| 0 <= i < table.len() && (#[trigger] table[i]).1.contains(scope);
            if i < n {
                assert(rest[i] == table[i]);
            }
        }
        if table.last().1.contains(scope) {
            assert(table[n].1.contains(scope));
        }
    }
}

// ---------------------------------------------------------------------------
// Laws
// ---------------------------------------------------------------------------

/// The document publishes the resource and the issuers of the configuration,
/// every scope that some server names, once and in order, and that tokens are
/// taken from the header alone.
pub proof fn documents_publish_the_configuration(
    config: &AuthenticationConfig,
    m: ProtectedResourceMetadata,
    scope: Seq<char>,
    i: int,
    j: int,
)
    requires
        call_ensures(protected_resource_metadata, (config,), m),
    ensures
        m@.resource == config@.resource,
        m@.authorization_servers == config@.issuer,
        m@.bearer_methods_supported == seq!["header"@],
        m@.resource_documentation == config@.resource_documentation_url,
        m@.scopes_supported.contains(scope) <==> exists|k: int|
            0 <= k < config@.server_scopes.len() && (
            #[trigger] config@.server_scopes[k]).1.contains(scope),
        0 <= i < j < m@.scopes_supported.len() ==> order::before(
            m@.scopes_supported[i],
            m@.scopes_supported[j],
        ) && m@.scopes_supported[i] != m@.scopes_supported[j],
{
    published_scopes_are_the_configured_ones(config@.server_scopes, scope);
    assert(m@.scopes_supported.to_set().contains(scope) == m@.scopes_supported.contains(scope));
    if 0 <= i < j < m@.scopes_supported.len() {
        assert(order::before(m@.scopes_supported[i], m@.scopes_supported[j]));
        order::lemma_irreflexive(m@.scopes_supported[i]);
    }
}

} // verus!
