//! The cryptographic provider of TLS connections.

use std::sync::Arc;

use vstd::prelude::*;

verus! {

/// A provider of cryptography for TLS.
#[verifier::external_type_specification]
#[verifier::external_body]
pub struct ExCryptoProvider(rustls::crypto::CryptoProvider);

/// `rustls::crypto::ring::default_provider`. Nothing is claimed of the
/// provider.
#[verifier::external_body]
fn build_provider() -> rustls::crypto::CryptoProvider {
    rustls::crypto::ring::default_provider()
}

/// `CryptoProvider::install_default`: whether the provider became the default
/// of the process. It does so at most once, so the outcome depends on what
/// the process did before.
#[verifier::external_body]
fn install_default(provider: rustls::crypto::CryptoProvider) -> bool {
    provider.install_default().is_ok()
}

/// Whether a provider may be the one that is built.
pub closed spec fn built(provider: rustls::crypto::CryptoProvider) -> bool {
    call_ensures(build_provider, (), provider)
}

/// The provider, for configurations that name one.
pub fn provider() -> (p: Arc<rustls::crypto::CryptoProvider>)
    ensures
        built(*p),
{
    Arc::new(build_provider())
}

/// Make the provider the default of the process. A default that is already
/// there stays.
pub fn install() {
    let _ = install_default(build_provider());
}

} // verus!
