//! Credential values with controlled access.

use vstd::prelude::*;

use crate::text;

verus! {

/// Guard of a locked page range: dropping it unlocks the pages.
#[verifier::external_type_specification]
#[verifier::external_body]
pub struct ExLockGuard(region::LockGuard);

/// Pin the pages of `value` in physical memory with `region::lock`.
///
/// Locking is best effort: nothing is claimed of when a guard comes back,
/// since that depends on the platform and on `RLIMIT_MEMLOCK`.
#[verifier::external_body]
fn lock_pages(value: &str) -> Option<region::LockGuard>
    requires
        value@.len() > 0,
{
    region::lock(value.as_ptr(), value.len()).ok()
}

/// Overwrite the bytes of `value` with zeros and clear it, with
/// `zeroize::Zeroize::zeroize`.
#[verifier::external_body]
fn wipe(value: &mut String)
    ensures
        final(value)@ == Seq::<char>::empty(),
    opens_invariants none
    no_unwind
{
    zeroize::Zeroize::zeroize(value)
}

/// A resolved credential value.
///
/// The value is reached only through [`Secret::expose`]. Its pages are
/// locked in memory where the platform allows it, and its bytes are zeroed
/// when the secret is dropped.
pub struct Secret {
    value: String,
    lock: Option<region::LockGuard>,
}

impl View for Secret {
    type V = Seq<char>;

    closed spec fn view(&self) -> Seq<char> {
        self.value@
    }
}

impl Secret {
    /// Whether locking the pages of the value in memory was tried: an empty
    /// value has no pages, and for any other the secret holds what came of
    /// the attempt.
    pub closed spec fn pinned(self) -> bool {
        if self.value@.len() == 0 {
            self.lock is None
        } else {
            exists|v: &str| v@ == self.value@ && #[trigger] call_ensures(
                lock_pages,
                (v,),
                self.lock,
            )
        }
    }

    /// Whether no pages are locked.
    pub closed spec fn unlocked(self) -> bool {
        self.lock is None
    }

    /// Wrap a string value as a secret.
    pub fn new(value: String) -> (secret: Self)
        ensures
            secret@ == value@,
            secret.pinned(),
    {
        let lock = lock_value_pages(value.as_str());
        Secret { value, lock }
    }

    /// The secret value, for the point of use.
    pub fn expose(&self) -> (value: &str)
        ensures
            value@ == self@,
    {
        self.value.as_str()
    }

    /// What stands for a secret in output: never its value.
    pub fn redacted(&self) -> (shown: String)
        ensures
            shown@ == "[REDACTED]"@,
    {
        String::from_str("[REDACTED]")
    }
}

impl Clone for Secret {
    fn clone(&self) -> (copy: Self)
        ensures
            copy@ == self@,
            copy.pinned(),
    {
        Secret::new(self.value.clone())
    }
}

impl PartialEq for Secret {
    fn eq(&self, other: &Self) -> (same: bool) {
        text::same(self.expose(), other.expose())
    }
}

impl vstd::std_specs::cmp::PartialEqSpecImpl for Secret {
    open spec fn obeys_eq_spec() -> bool {
        true
    }

    open spec fn eq_spec(&self, other: &Self) -> bool {
        self@ == other@
    }
}

impl Eq for Secret {

}

impl Drop for Secret {
    fn drop(&mut self)
        ensures
            final(self)@ == Seq::<char>::empty(),
            final(self).unlocked(),
        opens_invariants none
        no_unwind
    {
        wipe(&mut self.value);
        self.lock = None;
    }
}

/// Lock the pages of a non-empty value; an empty one has no pages to lock.
fn lock_value_pages(value: &str) -> (lock: Option<region::LockGuard>)
    ensures
        value@.len() == 0 ==> lock is None,
        value@.len() > 0 ==> call_ensures(lock_pages, (value,), lock),
{
    if value.is_empty() {
        None
    } else {
        lock_pages(value)
    }
}

// ---------------------------------------------------------------------------
// Laws
// ---------------------------------------------------------------------------

/// A secret is had only where it is asked for, as it was put in, and is never
/// shown.
pub proof fn secrets_are_kept_and_not_shown(
    value: String,
    secret: Secret,
    exposed: &str,
    shown: String,
)
    requires
        call_ensures(Secret::new, (value,), secret),
        call_ensures(Secret::expose, (&secret,), exposed),
        call_ensures(Secret::redacted, (&secret,), shown),
    ensures
        exposed@ == value@,
        shown@ == "[REDACTED]"@,
{
}

} // verus!
