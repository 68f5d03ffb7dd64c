//! The credentials that a configuration refers to, and their resolution
//! before the gateway starts.

use vstd::prelude::*;

use crate::chain;
use crate::chain::CredentialError;
use crate::config::CredentialResolutionError;
use crate::names;
use crate::names::NameMap;
use crate::oauth::{Grant, TokenRequest};
use crate::order;
use crate::secret::Secret;
use crate::server::{Gateway, GatewayConfig, OAuth, OAuthCredential, Server};
use crate::text;

verus! {

// ---------------------------------------------------------------------------
// Collection
// ---------------------------------------------------------------------------

/// The first server that refers to a credential. A credential that is fetched
/// by OAuth is not resolved beforehand.
pub open spec fn server_context(
    servers: Seq<(Seq<char>, Server)>,
    oauth: Seq<(Seq<char>, OAuth)>,
    name: Seq<char>,
) -> Option<Seq<char>>
    decreases servers.len(),
{
    if servers.len() == 0 {
        None
    } else if servers[0].1.credential == Some(name) && !names::holds(oauth, name) {
        Some(servers[0].0)
    } else {
        server_context(servers.drop_first(), oauth, name)
    }
}

/// The first OAuth credential whose client secret is the given credential.
pub open spec fn oauth_context(oauth: Seq<(Seq<char>, OAuth)>, name: Seq<char>) -> Option<
    Seq<char>,
>
    decreases oauth.len(),
{
    if oauth.len() == 0 {
        None
    } else if oauth[0].1.client_secret_credential == name {
        Some("oauth:"@ + oauth[0].0)
    } else {
        oauth_context(oauth.drop_first(), name)
    }
}

/// Who first refers to a credential: a server, or else an OAuth credential
/// for its client secret.
pub open spec fn context_of(g: Gateway, name: Seq<char>) -> Option<Seq<char>> {
    match server_context(g.servers, g.oauth, name) {
        Some(context) => Some(context),
        None => oauth_context(g.oauth, name),
    }
}

/// The credential that a server refers to and that is resolved beforehand.
pub open spec fn server_reference(s: Server, oauth: Seq<(Seq<char>, OAuth)>) -> Option<
    Seq<char>,
> {
    match s.credential {
        Some(name) => if names::holds(oauth, name) {
            None
        } else {
            Some(name)
        },
        None => None,
    }
}

proof fn lemma_server_context(
    servers: Seq<(Seq<char>, Server)>,
    oauth: Seq<(Seq<char>, OAuth)>,
    name: Seq<char>,
    n: int,
)
    requires
        0 <= n <= servers.len(),
        forall|k: int|
            0 <= k < n ==> server_reference((#[trigger] servers[k]).1, oauth) != Some(name),
    ensures
        server_context(servers, oauth, name) == server_context(servers.skip(n), oauth, name),
    decreases n,
{
    if n == 0 {
        assert(servers.skip(0) =~= servers);
    } else {
        assert(server_reference(servers[0].1, oauth) != Some(name));
        assert forall|k: int| 0 <= k < n - 1 implies server_reference(
            (#[trigger] servers.drop_first()[k]).1,
            oauth,
        ) != Some(name) by {
            assert(servers.drop_first()[k] == servers[k + 1]);
        }
        lemma_server_context(servers.drop_first(), oauth, name, n - 1);
        assert(servers.drop_first().skip(n - 1) =~= servers.skip(n));
    }
}

proof fn lemma_oauth_context(oauth: Seq<(Seq<char>, OAuth)>, name: Seq<char>, n: int)
    requires
        0 <= n <= oauth.len(),
        forall|k: int| 0 <= k < n ==> (#[trigger] oauth[k]).1.client_secret_credential != name,
    ensures
        oauth_context(oauth, name) == oauth_context(oauth.skip(n), name),
    decreases n,
{
    if n == 0 {
        assert(oauth.skip(0) =~= oauth);
    } else {
        assert(oauth[0].1.client_secret_credential != name);
        assert forall|k: int| 0 <= k < n - 1 implies (
        #[trigger] oauth.drop_first()[k]).1.client_secret_credential != name by {
            assert(oauth.drop_first()[k] == oauth[k + 1]);
        }
        lemma_oauth_context(oauth.drop_first(), name, n - 1);
        assert(oauth.drop_first().skip(n - 1) =~= oauth.skip(n));
    }
}

/// A credential has a context exactly where something refers to it.
pub proof fn lemma_context(g: Gateway, name: Seq<char>)
    ensures
        context_of(g, name) is Some <==> {
            ||| exists|i: int|
                0 <= i < g.servers.len() && server_reference((#[trigger] g.servers[i]).1, g.oauth)
                    == Some(name)
            ||| exists|j: int|
                0 <= j < g.oauth.len() && (#[trigger] g.oauth[j]).1.client_secret_credential == name
        },
{
    if forall|i: int|
        0 <= i < g.servers.len() ==> server_reference((#[trigger] g.servers[i]).1, g.oauth) != Some(
            name,
        ) {
        lemma_server_context(g.servers, g.oauth, name, g.servers.len() as int);
    } else {
        lemma_server_reference_found(g.servers, g.oauth, name);
    }
    if forall|j: int|
        0 <= j < g.oauth.len() ==> (#[trigger] g.oauth[j]).1.client_secret_credential != name {
        lemma_oauth_context(g.oauth, name, g.oauth.len() as int);
    } else {
        lemma_oauth_reference_found(g.oauth, name);
    }
}

proof fn lemma_server_reference_found(
    servers: Seq<(Seq<char>, Server)>,
    oauth: Seq<(Seq<char>, OAuth)>,
    name: Seq<char>,
)
    requires
        exists|i: int|
            0 <= i < servers.len() && server_reference((#[trigger] servers[i]).1, oauth) == Some(
                name,
            ),
    ensures
        server_context(servers, oauth, name) is Some,
    decreases servers.len(),
{
    let i = choose|i: int|
        0 <= i < servers.len() && server_reference((#[trigger] servers[i]).1, oauth) == Some(name);
    if i > 0 && server_reference(servers[0].1, oauth) != Some(name) {
        assert(servers.drop_first()[i - 1] == servers[i]);
        lemma_server_reference_found(servers.drop_first(), oauth, name);
    }
}

proof fn lemma_oauth_reference_found(oauth: Seq<(Seq<char>, OAuth)>, name: Seq<char>)
    requires
        exists|j: int|
            0 <= j < oauth.len() && (#[trigger] oauth[j]).1.client_secret_credential == name,
    ensures
        oauth_context(oauth, name) is Some,
    decreases oauth.len(),
{
    let j = choose|j: int|
        0 <= j < oauth.len() && (#[trigger] oauth[j]).1.client_secret_credential == name;
    if j > 0 && oauth[0].1.client_secret_credential != name {
        assert(oauth.drop_first()[j - 1] == oauth[j]);
        lemma_oauth_reference_found(oauth.drop_first(), name);
    }
}

/// Who first refers to a credential.
fn find_context(config: &GatewayConfig, name: &str) -> (context: Option<String>)
    ensures
        text::opt(context) == context_of(config@, name@),
{
    let ghost g = config@;
    proof {
        names::lemma_find_deep(config.oauth@, name@);
    }
    let mut i: usize = 0;
    while i < config.servers.len()
        invariant
            i <= config.servers@.len(),
            g == config@,
            names::holds(g.oauth, name@) == names::holds(config.oauth@, name@),
            forall|k: int|
                0 <= k < i ==> server_reference((#[trigger] g.servers[k]).1, g.oauth) != Some(
                    name@,
                ),
        decreases config.servers@.len() - i,
    {
        let server = config.servers.value_at(i);
        assert(g.servers[i as int] == (config.servers@[i as int].0, server@));
        if let Some(credential) = &server.credential {
            if text::same(credential.as_str(), name) && !config.oauth.contains_key(name) {
                proof {
                    lemma_server_context(g.servers, g.oauth, name@, i as int);
                    assert(g.servers.skip(i as int)[0] == g.servers[i as int]);
                }
                return Some(config.servers.key_at(i).clone());
            }
        }
        i = i + 1;
    }
    proof {
        lemma_server_context(g.servers, g.oauth, name@, i as int);
    }
    let mut j: usize = 0;
    while j < config.oauth.len()
        invariant
            j <= config.oauth@.len(),
            g == config@,
            server_context(g.servers, g.oauth, name@) is None,
            forall|k: int|
                0 <= k < j ==> (#[trigger] g.oauth[k]).1.client_secret_credential != name@,
        decreases config.oauth@.len() - j,
    {
        let credential = config.oauth.value_at(j);
        assert(g.oauth[j as int] == (config.oauth@[j as int].0, credential@));
        if text::same(credential.client_secret_credential.as_str(), name) {
            proof {
                lemma_oauth_context(g.oauth, name@, j as int);
                assert(g.oauth.skip(j as int)[0] == g.oauth[j as int]);
            }
            let mut context = String::from_str("oauth:");
            context.append(config.oauth.key_at(j).as_str());
            return Some(context);
        }
        j = j + 1;
    }
    proof {
        lemma_oauth_context(g.oauth, name@, j as int);
    }
    None
}

/// The credentials that something refers to, in order.
fn referenced_names(config: &GatewayConfig) -> (sorted: Vec<String>)
    ensures
        order::ascending(text::views(sorted@)),
        forall|n: Seq<char>| #[trigger]
            text::views(sorted@).contains(n) <==> context_of(config@, n) is Some,
{
    let ghost g = config@;
    let mut sorted: Vec<String> = Vec::new();
    let mut i: usize = 0;
    while i < config.servers.len()
        invariant
            i <= config.servers@.len(),
            g == config@,
            order::ascending(text::views(sorted@)),
            forall|n: Seq<char>| #[trigger]
                text::views(sorted@).contains(n) <==> exists|k: int|
                    0 <= k < i && server_reference((#[trigger] g.servers[k]).1, g.oauth) == Some(n),
        decreases config.servers@.len() - i,
    {
        let server = config.servers.value_at(i);
        let ghost before = text::views(sorted@);
        assert(g.servers[i as int] == (config.servers@[i as int].0, server@));
        if let Some(credential) = &server.credential {
            proof {
                names::lemma_find_deep(config.oauth@, credential@);
            }
            if !config.oauth.contains_key(credential.as_str()) {
                order::insert_ascending(&mut sorted, credential.clone());
            }
        }
        i = i + 1;
        proof {
            let after = text::views(sorted@);
            assert forall|n: Seq<char>| #[trigger] after.contains(n) <==> exists|k: int|
                0 <= k < i && server_reference((#[trigger] g.servers[k]).1, g.oauth) == Some(n) by {
                assert(after.contains(n) == after.to_set().contains(n));
                assert(before.contains(n) == before.to_set().contains(n));
                let reference = server_reference(g.servers[i - 1].1, g.oauth);
                assert(after.contains(n) <==> before.contains(n) || reference == Some(n));
            }
        }
    }
    let mut j: usize = 0;
    while j < config.oauth.len()
        invariant
            j <= config.oauth@.len(),
            g == config@,
            order::ascending(text::views(sorted@)),
            forall|n: Seq<char>| #[trigger]
                text::views(sorted@).contains(n) <==> {
                    ||| exists|k: int|
                        0 <= k < g.servers.len() && server_reference(
                            (#[trigger] g.servers[k]).1,
                            g.oauth,
                        ) == Some(n)
                    ||| exists|k: int|
                        0 <= k < j && (#[trigger] g.oauth[k]).1.client_secret_credential == n
                },
        decreases config.oauth@.len() - j,
    {
        let credential = config.oauth.value_at(j);
        let ghost before = text::views(sorted@);
        assert(g.oauth[j as int] == (config.oauth@[j as int].0, credential@));
        order::insert_ascending(&mut sorted, credential.client_secret_credential.clone());
        j = j + 1;
        proof {
            let after = text::views(sorted@);
            assert forall|n: Seq<char>| #[trigger] after.contains(n) implies before.contains(n) || n
                == g.oauth[j - 1].1.client_secret_credential by {
                assert(after.to_set().contains(n));
                assert(before.contains(n) == before.to_set().contains(n));
            }
            assert forall|n: Seq<char>|
                before.contains(n) || n
                    == g.oauth[j - 1].1.client_secret_credential implies #[trigger] after.contains(
                n,
            ) by {
                assert(before.contains(n) == before.to_set().contains(n));
                assert(after.to_set().contains(n));
            }
        }
    }
    assert forall|n: Seq<char>| #[trigger] text::views(sorted@).contains(n) <==> context_of(
        g,
        n,
    ) is Some by {
        lemma_context(g, n);
    }
    sorted
}

/// Collect the credentials that have to be resolved before the gateway
/// starts, in order, each with who first refers to it.
///
/// Servers that are disabled count as well: a mistake in their credential
/// shows at once, not when they are enabled.
pub fn collect_credential_references(config: &GatewayConfig) -> (references: NameMap<String>)
    ensures
        order::ascending(names::keys(references@)),
        forall|n: Seq<char>| #[trigger]
            names::find(names::deep(references@), n) == context_of(config@, n),
{
    let ghost g = config@;
    let sorted = referenced_names(config);
    let ghost all = text::views(sorted@);
    let mut references: NameMap<String> = NameMap::new();
    let mut k: usize = 0;
    assert(names::keys(references@) =~= all.take(0));
    while k < sorted.len()
        invariant
            k <= sorted@.len(),
            g == config@,
            all == text::views(sorted@),
            order::ascending(all),
            forall|n: Seq<char>| #[trigger] all.contains(n) <==> context_of(g, n) is Some,
            references@.len() == k,
            names::keys(references@) == all.take(k as int),
            forall|m: int|
                0 <= m < k ==> context_of(g, (#[trigger] references@[m]).0) == Some(
                    references@[m].1@,
                ),
        decreases sorted.len() - k,
    {
        let ghost before = references@;
        assert(all[k as int] == sorted@[k as int]@);
        assert(all.contains(all[k as int]));
        if let Some(context) = find_context(config, sorted[k].as_str()) {
            proof {
                assert forall|m: int| 0 <= m < before.len() implies (#[trigger] before[m]).0
                    != all[k as int] by {
                    assert(names::keys(before)[m] == before[m].0);
                    assert(order::before(all[m], all[k as int]));
                    order::lemma_irreflexive(all[m]);
                }
                names::lemma_new_name(before, all[k as int], context);
            }
            references.insert(sorted[k].clone(), context);
        }
        k = k + 1;
        assert(names::keys(references@) =~= all.take(k as int));
    }
    proof {
        let r = references@;
        assert(all.take(all.len() as int) =~= all);
        assert forall|n: Seq<char>| #[trigger]
            names::find(names::deep(r), n) == context_of(g, n) by {
            names::lemma_find_deep(r, n);
            names::lemma_position(r, n);
            names::lemma_has_key(r, n);
            let p = names::position(r, n);
            if p < r.len() {
                assert(context_of(g, r[p].0) == Some(r[p].1@));
            }
        }
    }
    references
}

// ---------------------------------------------------------------------------
// Resolution
// ---------------------------------------------------------------------------

/// The resolution of references, one after the other.
pub struct Resolving {
    references: NameMap<String>,
    secrets: NameMap<Secret>,
}

/// A resolution as a mathematical value.
pub struct Progress {
    /// The references: each credential with who refers to it.
    pub references: Seq<(Seq<char>, Seq<char>)>,
    /// The values of the credentials so far.
    pub secrets: Seq<(Seq<char>, Seq<char>)>,
}

impl View for Resolving {
    type V = Progress;

    closed spec fn view(&self) -> Progress {
        Progress {
            references: names::deep(self.references@),
            secrets: names::deep(self.secrets@),
        }
    }
}

/// The references are resolved in order, and none twice.
pub open spec fn in_order(p: Progress) -> bool {
    &&& names::distinct(p.references)
    &&& p.secrets.len() <= p.references.len()
    &&& names::keys(p.secrets) == names::keys(p.references).take(p.secrets.len() as int)
}

/// Whether every reference is resolved.
pub open spec fn complete(p: Progress) -> bool {
    p.secrets.len() == p.references.len()
}

/// The reference that is resolved next.
pub open spec fn current(p: Progress) -> (Seq<char>, Seq<char>) {
    p.references[p.secrets.len() as int]
}

/// The resolution with the value of the current reference.
pub open spec fn with_value(p: Progress, value: Seq<char>) -> Progress {
    Progress { secrets: p.secrets.push((current(p).0, value)), ..p }
}

impl Resolving {
    /// The references are resolved in order.
    #[verifier::type_invariant]
    pub closed spec fn well_formed(self) -> bool {
        in_order(self@)
    }

    /// A well-formed resolution resolves its references in order.
    pub proof fn lemma_in_order(self)
        requires
            self.well_formed(),
        ensures
            in_order(self@),
    {
    }

    /// Whether every reference is resolved.
    pub fn is_complete(&self) -> (b: bool)
        ensures
            b == complete(self@),
    {
        self.secrets.len() == self.references.len()
    }

    /// The name of the credential that is resolved next.
    pub fn next_credential(&self) -> (name: Option<&str>)
        ensures
            match name {
                Some(n) => !complete(self@) && n@ == current(self@).0,
                None => complete(self@),
            },
    {
        proof {
            use_type_invariant(self);
        }
        let at = self.secrets.len();
        if at < self.references.len() {
            Some(self.references.key_at(at).as_str())
        } else {
            None
        }
    }

    /// Take the outcome of the current resolution. The first failure ends the
    /// resolution and names who refers to the credential. Where nothing is
    /// left to resolve the outcome does not count.
    pub fn step(&mut self, outcome: Result<Secret, CredentialError>) -> (r: Result<
        (),
        CredentialResolutionError,
    >)
        ensures
            match outcome {
                Ok(secret) => r is Ok && final(self)@ == (if complete(old(self)@) {
                    old(self)@
                } else {
                    with_value(old(self)@, secret@)
                }),
                Err(e) => final(self)@ == old(self)@ && (if complete(old(self)@) {
                    r is Ok
                } else {
                    r matches Err(error) && error.server@ == current(old(self)@).1
                        && error.credential@ == current(old(self)@).0 && error.reason@
                        == chain::fault_message(e@)
                }),
            },
    {
        proof {
            use_type_invariant(&*self);
        }
        let at = self.secrets.len();
        if at == self.references.len() {
            return Ok(());
        }
        let name = self.references.key_at(at).clone();
        match outcome {
            Err(e) => Err(
                CredentialResolutionError {
                    server: self.references.value_at(at).clone(),
                    credential: name,
                    reason: e.message(),
                },
            ),
            Ok(secret) => {
                let ghost p = self@;
                let ghost before = self.secrets@;
                let ghost key = name@;
                let mut whole = resolve_all(NameMap::new());
                std::mem::swap(&mut whole, self);
                let Resolving { references, mut secrets } = whole;
                proof {
                    assert forall|k: int| 0 <= k < before.len() implies (#[trigger] before[k]).0
                        != key by {
                        assert(names::keys(p.secrets)[k] == before[k].0);
                        assert(names::keys(p.references)[k] == p.references[k].0);
                        assert(p.references[k].0 != p.references[at as int].0);
                    }
                    names::lemma_new_name(before, key, secret);
                }
                secrets.insert(name, secret);
                proof {
                    assert(names::deep(secrets@) =~= with_value(p, secret@).secrets);
                    assert(names::keys(with_value(p, secret@).secrets) =~= names::keys(
                        p.references,
                    ).take(at + 1));
                }
                *self = Resolving { references, secrets };
                Ok(())
            },
        }
    }

    /// The values of the credentials.
    pub fn into_secrets(self) -> (secrets: NameMap<Secret>)
        ensures
            names::deep(secrets@) == self@.secrets,
    {
        self.secrets
    }
}

/// Begin to resolve references.
pub fn resolve_all(references: NameMap<String>) -> (resolving: Resolving)
    ensures
        resolving@ == (Progress { references: names::deep(references@), secrets: Seq::empty() }),
{
    let n = references.len();
    proof {
        let d = names::deep(references@);
        assert forall|i: int, j: int| 0 <= i < j < n implies (#[trigger] d[i]).0 != (
        #[trigger] d[j]).0 by {
            assert(references@[i].0 != references@[j].0);
        }
    }
    let secrets: NameMap<Secret> = NameMap::new();
    proof {
        assert(names::deep(secrets@) =~= Seq::empty());
        assert(names::keys(names::deep(secrets@)) =~= names::keys(names::deep(references@)).take(0));
    }
    Resolving { references, secrets }
}

// ---------------------------------------------------------------------------
// Token requests
// ---------------------------------------------------------------------------

/// Whether the client secret of every OAuth credential is known.
pub open spec fn secrets_known(
    oauth: Seq<(Seq<char>, OAuth)>,
    secrets: Seq<(Seq<char>, Seq<char>)>,
) -> bool {
    forall|i: int|
        0 <= i < oauth.len() ==> names::find(
            secrets,
            (#[trigger] oauth[i]).1.client_secret_credential,
        ) is Some
}

/// The token request of an OAuth credential.
pub open spec fn grant_of(c: OAuth, secrets: Seq<(Seq<char>, Seq<char>)>) -> Grant {
    Grant {
        token_endpoint: c.token_endpoint,
        client_id: c.client_id,
        client_secret: names::find(secrets, c.client_secret_credential)->0,
        scope: c.scope,
        audience: c.audience,
    }
}

/// The token requests of all OAuth credentials.
pub open spec fn grants_of(
    oauth: Seq<(Seq<char>, OAuth)>,
    secrets: Seq<(Seq<char>, Seq<char>)>,
) -> Seq<(Seq<char>, Grant)> {
    oauth.map_values(|e: (Seq<char>, OAuth)| (e.0, grant_of(e.1, secrets)))
}

/// The token request of each OAuth credential, with its client secret.
pub fn build_token_requests(
    oauth_credentials: &NameMap<OAuthCredential>,
    static_secrets: &NameMap<Secret>,
) -> (requests: NameMap<TokenRequest>)
    requires
        secrets_known(names::deep(oauth_credentials@), names::deep(static_secrets@)),
    ensures
        names::deep(requests@) == grants_of(
            names::deep(oauth_credentials@),
            names::deep(static_secrets@),
        ),
{
    let ghost oauth = names::deep(oauth_credentials@);
    let ghost secrets = names::deep(static_secrets@);
    let n = oauth_credentials.len();
    let mut requests: NameMap<TokenRequest> = NameMap::new();
    let mut i: usize = 0;
    while i < n
        invariant
            i <= n == oauth_credentials@.len(),
            names::distinct(oauth_credentials@),
            oauth == names::deep(oauth_credentials@),
            secrets == names::deep(static_secrets@),
            secrets_known(oauth, secrets),
            requests@.len() == i,
            forall|k: int|
                0 <= k < i ==> (#[trigger] requests@[k]).0 == oauth_credentials@[k].0
                    && requests@[k].1@ == grant_of(oauth_credentials@[k].1@, secrets),
        decreases n - i,
    {
        let name = oauth_credentials.key_at(i).clone();
        let credential = oauth_credentials.value_at(i);
        proof {
            assert(oauth[i as int] == (name@, credential@));
            names::lemma_find_deep(static_secrets@, credential.client_secret_credential@);
        }
        if let Some(client_secret) = static_secrets.get(
            credential.client_secret_credential.as_str(),
        ) {
            let request = TokenRequest {
                token_endpoint: credential.token_endpoint.clone(),
                client_id: credential.client_id.clone(),
                client_secret: client_secret.clone(),
                scope: text::copy_opt(&credential.scope),
                audience: text::copy_opt(&credential.audience),
            };
            proof {
                names::lemma_next_name(requests@, oauth_credentials@, request);
            }
            requests.insert(name, request);
        }
        i = i + 1;
    }
    assert(names::deep(requests@) =~= grants_of(oauth, secrets));
    requests
}

// ---------------------------------------------------------------------------
// Laws
// ---------------------------------------------------------------------------

/// A complete resolution has a value for every reference, and for nothing
/// else.
pub proof fn complete_resolutions_cover_every_reference(p: Progress, name: Seq<char>)
    requires
        in_order(p),
        complete(p),
    ensures
        names::find(p.secrets, name) is Some <==> names::find(p.references, name) is Some,
{
    assert(names::keys(p.references).take(p.references.len() as int) =~= names::keys(p.references));
    names::lemma_has_key(p.secrets, name);
    names::lemma_has_key(p.references, name);
    names::lemma_position(p.secrets, name);
    names::lemma_position(p.references, name);
}

/// Once all references of a configuration are resolved, the client secret of
/// every OAuth credential is known.
pub proof fn client_secrets_are_always_resolved(g: Gateway, p: Progress)
    requires
        in_order(p),
        complete(p),
        forall|n: Seq<char>| #[trigger] names::find(p.references, n) == context_of(g, n),
    ensures
        secrets_known(g.oauth, p.secrets),
{
    assert forall|i: int| 0 <= i < g.oauth.len() implies names::find(
        p.secrets,
        (#[trigger] g.oauth[i]).1.client_secret_credential,
    ) is Some by {
        let name = g.oauth[i].1.client_secret_credential;
        lemma_context(g, name);
        assert(names::find(p.references, name) == context_of(g, name));
        complete_resolutions_cover_every_reference(p, name);
    }
}

/// A credential that is fetched by OAuth is not asked of the other sources,
/// unless it is itself the client secret of an OAuth credential.
pub proof fn oauth_credentials_are_not_resolved_beforehand(g: Gateway, name: Seq<char>)
    requires
        names::holds(g.oauth, name),
        forall|j: int|
            0 <= j < g.oauth.len() ==> (#[trigger] g.oauth[j]).1.client_secret_credential != name,
    ensures
        context_of(g, name) is None,
{
    lemma_context(g, name);
}

/// A credential is asked for on behalf of the first server that names it,
/// unless OAuth fetches it; where no server does, on behalf of the first OAuth
/// credential that has it as its client secret; and otherwise not at all.
pub proof fn credentials_are_asked_for_by_their_first_user(
    front: Seq<(Seq<char>, Server)>,
    user: (Seq<char>, Server),
    back: Seq<(Seq<char>, Server)>,
    first: Seq<(Seq<char>, OAuth)>,
    client: (Seq<char>, OAuth),
    last: Seq<(Seq<char>, OAuth)>,
    name: Seq<char>,
)
    requires
        forall|i: int| 0 <= i < front.len() ==> (#[trigger] front[i]).1.credential != Some(name),
        forall|i: int|
            0 <= i < first.len() ==> (#[trigger] first[i]).1.client_secret_credential != name,
    ensures
        forall|oauth: Seq<(Seq<char>, OAuth)>|
            user.1.credential == Some(name) && !names::holds(oauth, name) ==> #[trigger]
            server_context(front + seq![user] + back, oauth, name) == Some(user.0),
        forall|oauth: Seq<(Seq<char>, OAuth)>| #[trigger]
            server_context(front, oauth, name) is None,
        forall|oauth: Seq<(Seq<char>, OAuth)>|
            names::holds(oauth, name) ==> #[trigger] server_context(
                front + seq![user] + back,
                oauth,
                name,
            ) is None,
        client.1.client_secret_credential == name ==> oauth_context(
            first + seq![client] + last,
            name,
        ) == Some("oauth:"@ + client.0),
        oauth_context(first, name) is None,
{
    assert forall|oauth: Seq<(Seq<char>, OAuth)>| user.1.credential == Some(name) && !names::holds(
        oauth,
        name,
    ) implies #[trigger] server_context(front + seq![user] + back, oauth, name) == Some(
        user.0,
    ) by {
        lemma_first_server(front, user, back, oauth, name);
    }
    assert forall|oauth: Seq<(Seq<char>, OAuth)>| #[trigger]
        server_context(front, oauth, name) is None by {
        lemma_server_context(front, oauth, name, front.len() as int);
        assert(front.skip(front.len() as int) =~= Seq::empty());
    }
    assert forall|oauth: Seq<(Seq<char>, OAuth)>| names::holds(oauth, name) implies #[trigger]
    server_context(front + seq![user] + back, oauth, name) is None by {
        let all = front + seq![user] + back;
        lemma_server_context(all, oauth, name, all.len() as int);
        assert(all.skip(all.len() as int) =~= Seq::empty());
    }
    lemma_oauth_context(first, name, first.len() as int);
    assert(first.skip(first.len() as int) =~= Seq::empty());
    let all = first + seq![client] + last;
    assert forall|k: int| 0 <= k < first.len() implies (
    #[trigger] all[k]).1.client_secret_credential != name by {
        assert(all[k] == first[k]);
    }
    lemma_oauth_context(all, name, first.len() as int);
    assert(all.skip(first.len() as int)[0] == client);
}

proof fn lemma_first_server(
    front: Seq<(Seq<char>, Server)>,
    user: (Seq<char>, Server),
    back: Seq<(Seq<char>, Server)>,
    oauth: Seq<(Seq<char>, OAuth)>,
    name: Seq<char>,
)
    requires
        forall|i: int| 0 <= i < front.len() ==> (#[trigger] front[i]).1.credential != Some(name),
        user.1.credential == Some(name),
        !names::holds(oauth, name),
    ensures
        server_context(front + seq![user] + back, oauth, name) == Some(user.0),
{
    let all = front + seq![user] + back;
    assert forall|k: int| 0 <= k < front.len() implies server_reference((#[trigger] all[k]).1, oauth)
        != Some(name) by {
        assert(all[k] == front[k]);
    }
    lemma_server_context(all, oauth, name, front.len() as int);
    assert(all.skip(front.len() as int)[0] == user);
}

/// Servers come before OAuth credentials in the context of a credential.
pub proof fn servers_come_first_in_the_context(g: Gateway, name: Seq<char>, s: Server)
    ensures
        server_context(g.servers, g.oauth, name) is Some ==> context_of(g, name) == server_context(
            g.servers,
            g.oauth,
            name,
        ),
        server_context(g.servers, g.oauth, name) is None ==> context_of(g, name) == oauth_context(
            g.oauth,
            name,
        ),
        server_reference(s, g.oauth) == Some(name) <==> s.credential == Some(name) && !names::holds(
            g.oauth,
            name,
        ),
{
}

/// References are resolved one after the other: the one that comes next is the
/// first without a value, its value goes to the end, under its own name, and
/// the resolution is complete when every reference has one.
pub proof fn references_are_resolved_one_after_the_other(p: Progress, value: Seq<char>)
    requires
        in_order(p),
        !complete(p),
    ensures
        ({
            let after = with_value(p, value);
            let name = current(p).0;
            &&& p.secrets.len() < p.references.len()
            &&& current(p) == p.references[p.secrets.len() as int]
            &&& names::find(p.secrets, name) is None
            &&& names::find(after.secrets, name) == Some(value)
            &&& after.secrets.len() == p.secrets.len() + 1
            &&& after.secrets.drop_last() == p.secrets
            &&& after.references == p.references
            &&& in_order(after)
            &&& complete(after) <==> after.secrets.len() == p.references.len()
        }),
{
    let n = p.secrets.len() as int;
    let after = with_value(p, value);
    let name = current(p).0;
    assert forall|i: int| 0 <= i < n implies (#[trigger] p.secrets[i]).0 != name by {
        assert(names::keys(p.secrets)[i] == names::keys(p.references).take(n)[i]);
        assert(p.references[i].0 != p.references[n].0);
    }
    names::lemma_position_is(p.secrets, name, n);
    assert(after.secrets[n] == (name, value));
    assert forall|i: int| 0 <= i < n implies (#[trigger] after.secrets[i]).0 != name by {
        assert(after.secrets[i] == p.secrets[i]);
    }
    names::lemma_position_is(after.secrets, name, n);
    assert(after.secrets.drop_last() =~= p.secrets);
    assert(names::keys(after.secrets) =~= names::keys(p.secrets).push(name));
    assert(names::keys(p.references).take(n + 1) =~= names::keys(p.references).take(n).push(name));
}

/// A resolution in order has a value for a beginning of the references, under
/// their names, and refers to none twice.
pub proof fn resolutions_in_order_follow_the_references(p: Progress, i: int, j: int)
    requires
        in_order(p),
        0 <= i < p.secrets.len(),
        0 <= j < p.references.len(),
    ensures
        p.secrets.len() <= p.references.len(),
        p.secrets[i].0 == p.references[i].0,
        i != j ==> p.references[i].0 != p.references[j].0,
        complete(p) <==> p.secrets.len() == p.references.len(),
{
    assert(names::keys(p.secrets)[i] == names::keys(p.references).take(
        p.secrets.len() as int,
    )[i]);
    if i < j {
        assert(p.references[i].0 != p.references[j].0);
    }
    if j < i {
        assert(p.references[j].0 != p.references[i].0);
    }
}

/// A token request has the endpoint, the client, the scope and the audience of
/// its credential, and the value of its client secret.
pub proof fn requests_follow_their_credential(
    oauth: Seq<(Seq<char>, OAuth)>,
    secrets: Seq<(Seq<char>, Seq<char>)>,
    c: OAuth,
    secret: Seq<char>,
    i: int,
)
    requires
        names::find(secrets, c.client_secret_credential) == Some(secret),
    ensures
        grant_of(c, secrets) == (Grant {
            token_endpoint: c.token_endpoint,
            client_id: c.client_id,
            client_secret: secret,
            scope: c.scope,
            audience: c.audience,
        }),
        grants_of(oauth, secrets).len() == oauth.len(),
        0 <= i < oauth.len() ==> grants_of(oauth, secrets)[i] == (
            oauth[i].0,
            grant_of(oauth[i].1, secrets),
        ),
        secrets_known(oauth, secrets) && 0 <= i < oauth.len() ==> names::find(
            secrets,
            oauth[i].1.client_secret_credential,
        ) is Some,
{
}

/// A resolved credential gets its value and the next one comes up; one that
/// could not be resolved ends the resolution, by its name and the name of who
/// needs it.
pub proof fn resolutions_take_one_outcome_at_a_time(
    resolving: &mut Resolving,
    outcome: Result<Secret, CredentialError>,
    r: Result<(), CredentialResolutionError>,
)
    requires
        call_ensures(Resolving::step, (resolving, outcome), r),
        old(resolving)@.secrets.len() < old(resolving)@.references.len(),
    ensures
        r is Ok <==> outcome is Ok,
        ({
            let (name, user) = old(resolving)@.references[old(resolving)@.secrets.len() as int];
            &&& outcome matches Ok(secret) ==> final(resolving)@.secrets == old(
                resolving,
            )@.secrets.push((name, secret@))
            &&& r matches Err(e) ==> e.credential@ == name && e.server@ == user && final(resolving)@ == old(resolving)@
            &&& final(resolving)@.references == old(resolving)@.references
        }),
{
}

} // verus!
