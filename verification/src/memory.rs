//! Hardening of the process against leaks of secrets from its memory.

use vstd::prelude::*;

verus! {

/// Errors of process hardening.
#[derive(Debug)]
pub enum HardeningError {
    /// Core dumps could not be disabled.
    CoreDumpDisable(String),
}

impl HardeningError {
    /// The message shown to operators.
    pub fn message(&self) -> (m: String)
        ensures
            m@ == "failed to disable core dumps: "@ + self->0@,
    {
        match self {
            HardeningError::CoreDumpDisable(reason) => {
                let mut m = String::from_str("failed to disable core dumps: ");
                m.append(reason.as_str());
                m
            },
        }
    }
}

/// `rlimit::setrlimit` on the size of core files. Nothing is claimed of the
/// outcome, which is the system's; an error comes back as its text.
#[verifier::external_body]
fn limit_core_size(soft: u64, hard: u64) -> Result<(), String> {
    rlimit::setrlimit(rlimit::Resource::CORE, soft, hard).map_err(|error| error.to_string())
}

/// Whether the system may answer the attempt to set the limits on the size of
/// core files to `soft` and `hard` with `limited`.
pub closed spec fn core_size_limited(soft: u64, hard: u64, limited: Result<(), String>) -> bool {
    call_ensures(limit_core_size, (soft, hard), limited)
}

/// What the attempt to limit the size of core files comes to, for an answer
/// of the system.
pub open spec fn hardening(limited: Result<(), String>) -> Result<(), HardeningError> {
    match limited {
        Ok(()) => Ok(()),
        Err(reason) => Err(HardeningError::CoreDumpDisable(reason)),
    }
}

/// What the attempt to limit the size of core files comes to: it succeeds
/// where the system accepted the limits, and hands on its reason where it did
/// not.
pub fn hardened(limited: Result<(), String>) -> (r: Result<(), HardeningError>)
    ensures
        r == hardening(limited),
{
    match limited {
        Ok(()) => Ok(()),
        Err(reason) => Err(HardeningError::CoreDumpDisable(reason)),
    }
}

/// Disable core dumps: both limits on the size of core files become zero, so
/// that neither can be raised again. The system decides whether this
/// succeeds.
pub fn disable_core_dumps() -> (r: Result<(), HardeningError>)
    ensures
        exists|limited: Result<(), String>| #[trigger]
            core_size_limited(0, 0, limited) && r == hardening(limited),
{
    let limited = limit_core_size(0, 0);
    assert(core_size_limited(0, 0, limited));
    hardened(limited)
}

// ---------------------------------------------------------------------------
// Laws
// ---------------------------------------------------------------------------

/// Hardening succeeds exactly where the system accepted the limits, and hands
/// its reason on where it did not.
pub proof fn refused_limits_are_reported(limited: Result<(), String>)
    ensures
        hardening(limited) is Ok <==> limited is Ok,
        limited matches Err(reason) ==> (hardening(limited) matches Err(
            HardeningError::CoreDumpDisable(why),
        ) && why == reason),
{
}

} // verus!
