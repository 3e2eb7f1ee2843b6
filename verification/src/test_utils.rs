//! Helpers for exercising the library from tests.

use vstd::prelude::*;

use crate::types::PublicKey;

verus! {

/// A deterministic public key for tests: key number `i`.
pub fn pubkey(i: u64) -> (pk: PublicKey)
    ensures
        pk.0 == i,
{
    PublicKey(i)
}

} // verus!
