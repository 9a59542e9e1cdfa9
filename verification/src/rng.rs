//! The one source of nondeterminism: the byte drawn by the random-number
//! instruction.

use vstd::prelude::*;

verus! {

/// Relies on rand::random::<u8>: draws a byte from the thread-local
/// generator. Nothing can be promised of the value, so the callers state
/// what holds of every outcome.
#[verifier::external_body]
pub(crate) fn random_byte() -> u8 {
    rand::random::<u8>()
}

} // verus!
