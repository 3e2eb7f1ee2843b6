//! Slashing-protection ledger for a proof-of-stake validator client.
//!
//! Before a validator signs a block or an attestation, it consults this
//! library. The [`store::SlashingDatabase`] keeps, per public key, the
//! highest-slot block ever signed and the history of attestations signed;
//! the rules in [`rules`] decide whether a candidate signing action would
//! conflict with that history (a double proposal, a double vote, a
//! surrounding vote, or a regression of a monotonic bound). The
//! [`interchange`] document is a portable export of the ledger, and the
//! import routines merge such a document into a live store without ever
//! lowering a protection bound.

use vstd::prelude::*;

pub mod aggregate;
pub mod codec;
pub mod duties;
pub mod guard;
pub mod interchange;
pub mod rules;
pub mod store;
pub mod test_utils;
pub mod types;

pub use crate::store::SlashingDatabase;

verus! {

/// The newest interchange document version this library understands.
/// Documents claiming a newer version are refused on import.
pub const SUPPORTED_INTERCHANGE_FORMAT_VERSION: u64 = 4;

} // verus!
