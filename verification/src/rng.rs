//! The process-global source of randomness behind transaction ids, announce
//! keys and the random tail of the peer id.
use vstd::prelude::*;

verus! {

/// Relies on rand::random::<u32>: a fresh draw from the thread-local CSPRNG.
/// Nothing can be promised of a random value.
#[verifier::external_body]
pub(crate) fn random_u32() -> u32 {
    rand::random()
}

/// Relies on rand::random::<u8>: a fresh draw from the thread-local CSPRNG.
/// Nothing can be promised of a random value.
#[verifier::external_body]
pub(crate) fn random_u8() -> u8 {
    rand::random()
}

} // verus!
