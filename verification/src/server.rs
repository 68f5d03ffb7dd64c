//! Server definitions of the gateway configuration.

use vstd::prelude::*;

use crate::authentication::{Authentication, AuthenticationConfig};
use crate::names;
use crate::names::{Duplicate, NameMap};
use crate::secret::Secret;
use crate::text;

verus! {

/// The largest per-request timeout that a configuration may ask for, in
/// seconds.
pub const MAX_REQUEST_TIMEOUT_SECONDS: u64 = 3600;

/// A network in CIDR notation.
#[verifier::external_type_specification]
#[verifier::external_body]
pub struct ExIpNet(ipnet::IpNet);

/// Header names for client identity forwarded by a reverse proxy.
#[derive(Debug)]
pub struct ClientIdentityHeaders {
    /// Header that carries the client certificate.
    pub certificate: String,
    /// Header that carries the certificate chain.
    pub certificate_chain: String,
}

/// How the gateway reaches a server.
pub enum Transport {
    /// Spawn a local child process and talk over stdin and stdout.
    Stdio { command: String, args: Vec<String> },
    /// Forward requests to a remote server over HTTP.
    Http { url: String, headers: NameMap<Secret> },
    /// Connect to a remote server over the HTTP and SSE transport.
    Sse { url: String, headers: NameMap<Secret> },
}

/// How a credential is applied to outgoing traffic.
#[derive(Debug)]
pub enum CredentialInjection {
    /// As a request header.
    Header { credential_name: String, header_name: String, header_prefix: String },
    /// As the `MCP_CREDENTIAL` environment variable of a child process.
    Env { credential_name: String },
}

/// One MCP server.
pub struct ServerDefinition {
    /// Whether this server is active.
    pub enabled: bool,
    /// Environment variables of stdio server processes.
    pub env: NameMap<Secret>,
    /// Name of the credential that is injected.
    pub credential: Option<String>,
    /// Header name for credential injection.
    pub credential_header: Option<String>,
    /// Prefix of the credential value in a header.
    pub credential_prefix: Option<String>,
    /// Upper bound on one request, in seconds.
    pub request_timeout_seconds: Option<u64>,
    /// How the credential is applied, once it is worked out.
    pub credential_injection: Option<CredentialInjection>,
    /// How the gateway reaches the server.
    pub transport: Transport,
}

/// A credential that is fetched by the OAuth client-credentials grant.
#[derive(Debug)]
pub struct OAuthCredential {
    /// The token endpoint of the authorisation server.
    pub token_endpoint: String,
    /// The client identifier.
    pub client_id: String,
    /// Name of the credential that holds the client secret.
    pub client_secret_credential: String,
    /// The scope asked for.
    pub scope: Option<String>,
    /// The audience asked for.
    pub audience: Option<String>,
    /// How long before expiry the operator asks for a refresh, in nanoseconds.
    /// It is carried along; token caches use one skew for all credentials.
    pub refresh_skew: Option<u128>,
}

/// The gateway configuration.
pub struct GatewayConfig {
    /// Server definitions by name.
    pub servers: NameMap<ServerDefinition>,
    /// OAuth credentials by name.
    pub oauth: NameMap<OAuthCredential>,
    /// Networks of trusted reverse proxies.
    pub trusted_proxies: Vec<ipnet::IpNet>,
    /// Header names for forwarded client identity.
    pub client_identity_headers: Option<ClientIdentityHeaders>,
    /// Largest request body, in bytes.
    pub max_body_bytes: usize,
    /// Inbound authentication.
    pub authentication: Option<AuthenticationConfig>,
}

// ---------------------------------------------------------------------------
// Mathematical models
// ---------------------------------------------------------------------------

/// `Transport` as a mathematical value.
pub enum Route {
    Stdio { command: Seq<char>, args: Seq<Seq<char>> },
    Http { url: Seq<char>, headers: Seq<(Seq<char>, Seq<char>)> },
    Sse { url: Seq<char>, headers: Seq<(Seq<char>, Seq<char>)> },
}

/// `CredentialInjection` as a mathematical value.
pub enum Injection {
    Header { credential_name: Seq<char>, header_name: Seq<char>, header_prefix: Seq<char> },
    Env { credential_name: Seq<char> },
}

/// `ServerDefinition` as a mathematical value.
pub struct Server {
    pub enabled: bool,
    pub env: Seq<(Seq<char>, Seq<char>)>,
    pub credential: Option<Seq<char>>,
    pub credential_header: Option<Seq<char>>,
    pub credential_prefix: Option<Seq<char>>,
    pub request_timeout_seconds: Option<u64>,
    pub credential_injection: Option<Injection>,
    pub transport: Route,
}

/// `OAuthCredential` as a mathematical value.
pub struct OAuth {
    pub token_endpoint: Seq<char>,
    pub client_id: Seq<char>,
    pub client_secret_credential: Seq<char>,
    pub scope: Option<Seq<char>>,
    pub audience: Option<Seq<char>>,
    pub refresh_skew: Option<u128>,
}

/// `GatewayConfig` as a mathematical value.
pub struct Gateway {
    pub servers: Seq<(Seq<char>, Server)>,
    pub oauth: Seq<(Seq<char>, OAuth)>,
    pub trusted_proxies: Seq<ipnet::IpNet>,
    pub client_identity_headers: Option<(Seq<char>, Seq<char>)>,
    pub max_body_bytes: usize,
    pub authentication: Option<Authentication>,
}

impl View for ClientIdentityHeaders {
    type V = (Seq<char>, Seq<char>);

    open spec fn view(&self) -> (Seq<char>, Seq<char>) {
        (self.certificate@, self.certificate_chain@)
    }
}

impl View for Transport {
    type V = Route;

    open spec fn view(&self) -> Route {
        match self {
            Transport::Stdio { command, args } => Route::Stdio {
                command: command@,
                args: text::views(args@),
            },
            Transport::Http { url, headers } => Route::Http {
                url: url@,
                headers: names::deep(headers@),
            },
            Transport::Sse { url, headers } => Route::Sse {
                url: url@,
                headers: names::deep(headers@),
            },
        }
    }
}

impl View for CredentialInjection {
    type V = Injection;

    open spec fn view(&self) -> Injection {
        match self {
            CredentialInjection::Header {
                credential_name,
                header_name,
                header_prefix,
            } => Injection::Header {
                credential_name: credential_name@,
                header_name: header_name@,
                header_prefix: header_prefix@,
            },
            CredentialInjection::Env { credential_name } => Injection::Env {
                credential_name: credential_name@,
            },
        }
    }
}

impl View for ServerDefinition {
    type V = Server;

    open spec fn view(&self) -> Server {
        Server {
            enabled: self.enabled,
            env: names::deep(self.env@),
            credential: text::opt(self.credential),
            credential_header: text::opt(self.credential_header),
            credential_prefix: text::opt(self.credential_prefix),
            request_timeout_seconds: self.request_timeout_seconds,
            credential_injection: match self.credential_injection {
                Some(i) => Some(i@),
                None => None,
            },
            transport: self.transport@,
        }
    }
}

impl View for OAuthCredential {
    type V = OAuth;

    open spec fn view(&self) -> OAuth {
        OAuth {
            token_endpoint: self.token_endpoint@,
            client_id: self.client_id@,
            client_secret_credential: self.client_secret_credential@,
            scope: text::opt(self.scope),
            audience: text::opt(self.audience),
            refresh_skew: self.refresh_skew,
        }
    }
}

impl View for GatewayConfig {
    type V = Gateway;

    open spec fn view(&self) -> Gateway {
        Gateway {
            servers: names::deep(self.servers@),
            oauth: names::deep(self.oauth@),
            trusted_proxies: self.trusted_proxies@,
            client_identity_headers: match self.client_identity_headers {
                Some(h) => Some(h@),
                None => None,
            },
            max_body_bytes: self.max_body_bytes,
            authentication: match self.authentication {
                Some(a) => Some(a@),
                None => None,
            },
        }
    }
}

// ---------------------------------------------------------------------------
// Defaults and copies
// ---------------------------------------------------------------------------

/// Default of `GatewayConfig::max_body_bytes`: 4 MiB.
pub fn default_max_body_bytes() -> (bytes: usize)
    ensures
        bytes == 4_194_304,
{
    4_194_304
}

/// Default of `ServerDefinition::enabled`.
pub fn default_true() -> (enabled: bool)
    ensures
        enabled,
{
    true
}

/// Default of `ClientIdentityHeaders::certificate`.
pub fn default_client_cert_header() -> (name: String)
    ensures
        name@ == "Client-Cert"@,
{
    "Client-Cert".to_owned()
}

/// Default of `ClientIdentityHeaders::certificate_chain`.
pub fn default_client_cert_chain_header() -> (name: String)
    ensures
        name@ == "Client-Cert-Chain"@,
{
    "Client-Cert-Chain".to_owned()
}

impl Default for ClientIdentityHeaders {
    fn default() -> (headers: Self)
        ensures
            headers@ == ("Client-Cert"@, "Client-Cert-Chain"@),
    {
        ClientIdentityHeaders {
            certificate: default_client_cert_header(),
            certificate_chain: default_client_cert_chain_header(),
        }
    }
}

impl Default for GatewayConfig {
    fn default() -> (config: Self)
        ensures
            config@ == (Gateway {
                servers: Seq::empty(),
                oauth: Seq::empty(),
                trusted_proxies: Seq::empty(),
                client_identity_headers: None,
                max_body_bytes: 4_194_304,
                authentication: None,
            }),
    {
        let config = GatewayConfig {
            servers: NameMap::new(),
            oauth: NameMap::new(),
            trusted_proxies: Vec::new(),
            client_identity_headers: None,
            max_body_bytes: default_max_body_bytes(),
            authentication: None,
        };
        assert(config@.servers =~= Seq::empty());
        assert(config@.oauth =~= Seq::empty());
        assert(config@.trusted_proxies =~= Seq::empty());
        config
    }
}

/// The header that carries a server's credential.
pub open spec fn credential_header(s: Server) -> Seq<char> {
    match s.credential_header {
        Some(name) => name,
        None => "Authorization"@,
    }
}

/// The prefix of a server's credential in that header.
pub open spec fn credential_prefix(s: Server) -> Seq<char> {
    match s.credential_prefix {
        Some(prefix) => prefix,
        None => "Bearer "@,
    }
}

impl ServerDefinition {
    /// The header name for credential injection.
    pub fn resolved_credential_header(&self) -> (name: &str)
        ensures
            name@ == credential_header(self@),
    {
        match &self.credential_header {
            Some(name) => name.as_str(),
            None => "Authorization",
        }
    }

    /// The prefix of the credential value in a header.
    pub fn resolved_credential_prefix(&self) -> (prefix: &str)
        ensures
            prefix@ == credential_prefix(self@),
    {
        match &self.credential_prefix {
            Some(prefix) => prefix.as_str(),
            None => "Bearer ",
        }
    }
}

impl Duplicate for Secret {
    fn duplicate(&self) -> (copy: Self) {
        self.clone()
    }
}

impl Duplicate for Transport {
    fn duplicate(&self) -> (copy: Self) {
        match self {
            Transport::Stdio { command, args } => Transport::Stdio {
                command: command.clone(),
                args: text::copy_all(args),
            },
            Transport::Http { url, headers } => Transport::Http {
                url: url.clone(),
                headers: headers.duplicate(),
            },
            Transport::Sse { url, headers } => Transport::Sse {
                url: url.clone(),
                headers: headers.duplicate(),
            },
        }
    }
}

impl Duplicate for CredentialInjection {
    fn duplicate(&self) -> (copy: Self) {
        match self {
            CredentialInjection::Header {
                credential_name,
                header_name,
                header_prefix,
            } => CredentialInjection::Header {
                credential_name: credential_name.clone(),
                header_name: header_name.clone(),
                header_prefix: header_prefix.clone(),
            },
            CredentialInjection::Env { credential_name } => CredentialInjection::Env {
                credential_name: credential_name.clone(),
            },
        }
    }
}

impl Duplicate for ServerDefinition {
    fn duplicate(&self) -> (copy: Self) {
        ServerDefinition {
            enabled: self.enabled,
            env: self.env.duplicate(),
            credential: text::copy_opt(&self.credential),
            credential_header: text::copy_opt(&self.credential_header),
            credential_prefix: text::copy_opt(&self.credential_prefix),
            request_timeout_seconds: self.request_timeout_seconds,
            credential_injection: match &self.credential_injection {
                Some(injection) => Some(injection.duplicate()),
                None => None,
            },
            transport: self.transport.duplicate(),
        }
    }
}

impl Duplicate for OAuthCredential {
    fn duplicate(&self) -> (copy: Self) {
        OAuthCredential {
            token_endpoint: self.token_endpoint.clone(),
            client_id: self.client_id.clone(),
            client_secret_credential: self.client_secret_credential.clone(),
            scope: text::copy_opt(&self.scope),
            audience: text::copy_opt(&self.audience),
            refresh_skew: self.refresh_skew,
        }
    }
}

impl Duplicate for ClientIdentityHeaders {
    fn duplicate(&self) -> (copy: Self) {
        ClientIdentityHeaders {
            certificate: self.certificate.clone(),
            certificate_chain: self.certificate_chain.clone(),
        }
    }
}

/// A list of networks, copied.
pub fn copy_networks(networks: &Vec<ipnet::IpNet>) -> (copy: Vec<ipnet::IpNet>)
    ensures
        copy@ == networks@,
{
    let mut copy: Vec<ipnet::IpNet> = Vec::new();
    let mut i: usize = 0;
    while i < networks.len()
        invariant
            i <= networks.len(),
            copy@ == networks@.take(i as int),
        decreases networks.len() - i,
    {
        copy.push(networks[i]);
        i = i + 1;
        assert(copy@ =~= networks@.take(i as int));
    }
    assert(networks@.take(networks@.len() as int) =~= networks@);
    copy
}

// ---------------------------------------------------------------------------
// Laws
// ---------------------------------------------------------------------------

/// Servers are enabled and bodies are bounded by default, and a credential goes
/// into the configured header with the configured prefix, or into
/// `Authorization` with `Bearer`.
pub proof fn credentials_have_a_header_by_default(
    definition: &ServerDefinition,
    name: &str,
    prefix: &str,
    enabled: bool,
)
    requires
        call_ensures(ServerDefinition::resolved_credential_header, (definition,), name),
        call_ensures(ServerDefinition::resolved_credential_prefix, (definition,), prefix),
        call_ensures(default_true, (), enabled),
    ensures
        definition.credential_header matches Some(h) ==> name@ == h@,
        definition.credential_header is None ==> name@ == "Authorization"@,
        definition.credential_prefix matches Some(p) ==> prefix@ == p@,
        definition.credential_prefix is None ==> prefix@ == "Bearer "@,
        enabled,
{
}

/// Bodies are bounded by four mebibytes by default, and the identity of a
/// client is read from the headers of RFC 9440.
pub proof fn defaults_follow_the_standard(bytes: usize, header: String, chain: String)
    requires
        call_ensures(default_max_body_bytes, (), bytes),
        call_ensures(default_client_cert_header, (), header),
        call_ensures(default_client_cert_chain_header, (), chain),
    ensures
        bytes == 4 * 1024 * 1024,
        header@ == "Client-Cert"@,
        chain@ == "Client-Cert-Chain"@,
{
}

} // verus!
