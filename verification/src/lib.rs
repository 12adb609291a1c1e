//! A single-use payment-escrow record store.
//!
//! A requester publishes a payment obligation as a record at a
//! deterministically derived address, a payer settles it through an atomic
//! value transfer to the configured treasury, and the record's terminal
//! state is queried or reclaimed.  The record lifecycle, its settlement
//! protocol and the authorization rules are verified; the transaction host
//! (atomicity, signature checking, the token transfer itself) stays outside.

use vstd::prelude::*;

pub mod derivation;
pub mod errors;
pub mod laws;
pub mod records;
pub mod store;

verus! {

/// The identity of an account holder, as the host's signature check hands
/// it to every operation: the holder's 32-byte key, carried as four
/// little-endian words.  The all-zero value is the sentinel for "unset",
/// as in a freshly created, still unpaid request's `payer` field.
#[derive(Clone, Copy, Debug, PartialEq, Eq, Structural)]
pub struct IdentityKey {
    pub w0: u64,
    pub w1: u64,
    pub w2: u64,
    pub w3: u64,
}

impl IdentityKey {
    /// The all-zero sentinel identity: no payer has settled yet.
    pub open spec fn unset_spec() -> IdentityKey {
        IdentityKey { w0: 0, w1: 0, w2: 0, w3: 0 }
    }

    /// The all-zero sentinel identity, as a value.
    pub fn unset() -> (r: IdentityKey)
        ensures
            r == IdentityKey::unset_spec(),
    {
        IdentityKey { w0: 0, w1: 0, w2: 0, w3: 0 }
    }
}

} // verus!
