//! The portable interchange document: a versioned export of the protection
//! ledger that can be carried between independent validator client
//! implementations.
//!
//! A document is either *minimal* — per key only the three monotonic bounds
//! (highest signed block slot, highest attestation source and target epoch)
//! — or *complete*, carrying the full per-signature history.

use vstd::prelude::*;

use crate::types::{Epoch, Hash256, PublicKey, Slot};

verus! {

/// Which of the two document variants the data section holds.
#[derive(Clone, Copy, Debug, PartialEq, Eq, Structural)]
pub enum InterchangeFormat {
    Minimal,
    Complete,
}

/// Why a document was refused on import. A refused import leaves the store
/// entirely unchanged.
#[derive(Clone, Copy, Debug, PartialEq, Eq, Structural)]
pub enum ImportError {
    /// The document was exported on another chain.
    GenesisMismatch,
    /// The document claims a format version newer than this library knows.
    UnsupportedVersion,
    /// The data section contradicts the metadata, or an entry is malformed.
    MalformedDocument,
}

/// The document header.
#[derive(Clone, Copy, Debug, PartialEq, Eq, Structural)]
pub struct InterchangeMetadata {
    pub interchange_format: InterchangeFormat,
    pub interchange_format_version: u64,
    pub genesis_validators_root: Hash256,
}

/// One key's bounds in a minimal document. A `None` bound means the key
/// never signed in that category.
#[derive(Clone, Copy, Debug, PartialEq, Eq)]
pub struct MinimalInterchangeData {
    pub pubkey: PublicKey,
    pub last_signed_block_slot: Option<Slot>,
    pub last_signed_attestation_source_epoch: Option<Epoch>,
    pub last_signed_attestation_target_epoch: Option<Epoch>,
}

/// One signed block in a complete document.
#[derive(Clone, Copy, Debug, PartialEq, Eq)]
pub struct InterchangeBlock {
    pub slot: Slot,
    pub signing_root: Option<Hash256>,
}

/// One signed attestation in a complete document.
#[derive(Clone, Copy, Debug, PartialEq, Eq)]
pub struct InterchangeAttestation {
    pub source_epoch: Epoch,
    pub target_epoch: Epoch,
    pub signing_root: Option<Hash256>,
}

/// One key's full history in a complete document.
#[derive(Clone, Debug, PartialEq, Eq)]
pub struct CompleteInterchangeData {
    pub pubkey: PublicKey,
    pub signed_blocks: Vec<InterchangeBlock>,
    pub signed_attestations: Vec<InterchangeAttestation>,
}

/// The data section of a document.
#[derive(Clone, Debug, PartialEq, Eq)]
pub enum InterchangeData {
    Minimal(Vec<MinimalInterchangeData>),
    Complete(Vec<CompleteInterchangeData>),
}

/// A slashing-protection interchange document.
#[derive(Clone, Debug, PartialEq, Eq)]
pub struct Interchange {
    pub metadata: InterchangeMetadata,
    pub data: InterchangeData,
}

/// `v` holds a record equal to `x`.
pub open spec fn has_minimal_entry(v: Seq<MinimalInterchangeData>, x: MinimalInterchangeData) -> bool {
    exists|j: int| 0 <= j < v.len() && #[trigger] v[j] == x
}

/// Two minimal data sections carry the same records, in any order.
pub open spec fn minimal_data_equiv(a: Seq<MinimalInterchangeData>, b: Seq<MinimalInterchangeData>) -> bool {
    &&& a.len() == b.len()
    &&& forall|i: int| 0 <= i < a.len() ==> #[trigger] has_minimal_entry(b, a[i])
    &&& forall|j: int| 0 <= j < b.len() ==> #[trigger] has_minimal_entry(a, b[j])
}

/// Two complete entries agree on the key and on both history sequences.
pub open spec fn complete_entry_matches(a: CompleteInterchangeData, b: CompleteInterchangeData) -> bool {
    &&& a.pubkey == b.pubkey
    &&& a.signed_blocks@ == b.signed_blocks@
    &&& a.signed_attestations@ == b.signed_attestations@
}

/// `v` holds an entry matching `x`.
pub open spec fn has_complete_match(v: Seq<CompleteInterchangeData>, x: CompleteInterchangeData) -> bool {
    exists|j: int| 0 <= j < v.len() && complete_entry_matches(x, #[trigger] v[j])
}

/// Two complete data sections carry the same per-key histories, the keys in
/// any order.
pub open spec fn complete_data_equiv(a: Seq<CompleteInterchangeData>, b: Seq<CompleteInterchangeData>) -> bool {
    &&& a.len() == b.len()
    &&& forall|i: int| 0 <= i < a.len() ==> #[trigger] has_complete_match(b, a[i])
    &&& forall|j: int| 0 <= j < b.len() ==> #[trigger] has_complete_match(a, b[j])
}

/// Two documents are equivalent when the metadata agrees and the data
/// sections carry the same records, in any order.
pub open spec fn interchange_equiv(a: Interchange, b: Interchange) -> bool {
    &&& a.metadata == b.metadata
    &&& match (a.data, b.data) {
        (InterchangeData::Minimal(x), InterchangeData::Minimal(y)) => minimal_data_equiv(x@, y@),
        (InterchangeData::Complete(x), InterchangeData::Complete(y)) => complete_data_equiv(x@, y@),
        _ => false,
    }
}

/// Whether two minimal records are equal.
fn minimal_entry_eq(a: &MinimalInterchangeData, b: &MinimalInterchangeData) -> (r: bool)
    ensures
        r == (*a == *b),
{
    let slot_eq = match (&a.last_signed_block_slot, &b.last_signed_block_slot) {
        (Option::None, Option::None) => true,
        (Option::Some(x), Option::Some(y)) => x.0 == y.0,
        _ => false,
    };
    let source_eq = match (
        &a.last_signed_attestation_source_epoch,
        &b.last_signed_attestation_source_epoch,
    ) {
        (Option::None, Option::None) => true,
        (Option::Some(x), Option::Some(y)) => x.0 == y.0,
        _ => false,
    };
    let target_eq = match (
        &a.last_signed_attestation_target_epoch,
        &b.last_signed_attestation_target_epoch,
    ) {
        (Option::None, Option::None) => true,
        (Option::Some(x), Option::Some(y)) => x.0 == y.0,
        _ => false,
    };
    a.pubkey == b.pubkey && slot_eq && source_eq && target_eq
}

/// Whether `v` holds a record equal to `x`.
fn minimal_data_contains(v: &Vec<MinimalInterchangeData>, x: &MinimalInterchangeData) -> (r: bool)
    ensures
        r == has_minimal_entry(v@, *x),
{
    let mut i: usize = 0;
    while i < v.len()
        invariant
            0 <= i <= v@.len(),
            forall|j: int| 0 <= j < i ==> #[trigger] v@[j] != *x,
        decreases v@.len() - i,
    {
        if minimal_entry_eq(&v[i], x) {
            proof {
                assert(v@[i as int] == *x);
            }
            return true;
        }
        i = i + 1;
    }
    false
}

/// Whether two signed-block records are equal.
fn block_entry_eq(a: &InterchangeBlock, b: &InterchangeBlock) -> (r: bool)
    ensures
        r == (*a == *b),
{
    let root_eq = match (&a.signing_root, &b.signing_root) {
        (Option::None, Option::None) => true,
        (Option::Some(x), Option::Some(y)) => x.0 == y.0,
        _ => false,
    };
    a.slot.0 == b.slot.0 && root_eq
}

/// Whether two signed-attestation records are equal.
fn attestation_entry_eq(a: &InterchangeAttestation, b: &InterchangeAttestation) -> (r: bool)
    ensures
        r == (*a == *b),
{
    let root_eq = match (&a.signing_root, &b.signing_root) {
        (Option::None, Option::None) => true,
        (Option::Some(x), Option::Some(y)) => x.0 == y.0,
        _ => false,
    };
    a.source_epoch.0 == b.source_epoch.0 && a.target_epoch.0 == b.target_epoch.0 && root_eq
}

/// Whether two complete entries agree on the key and both histories.
fn complete_entry_eq(a: &CompleteInterchangeData, b: &CompleteInterchangeData) -> (r: bool)
    ensures
        r == complete_entry_matches(*a, *b),
{
    if a.pubkey != b.pubkey {
        return false;
    }
    if a.signed_blocks.len() != b.signed_blocks.len() {
        proof {
            assert(a.signed_blocks@.len() != b.signed_blocks@.len());
        }
        return false;
    }
    let mut i: usize = 0;
    while i < a.signed_blocks.len()
        invariant
            0 <= i <= a.signed_blocks@.len(),
            a.signed_blocks@.len() == b.signed_blocks@.len(),
            forall|j: int| 0 <= j < i ==> a.signed_blocks@[j] == b.signed_blocks@[j],
        decreases a.signed_blocks@.len() - i,
    {
        if !block_entry_eq(&a.signed_blocks[i], &b.signed_blocks[i]) {
            return false;
        }
        i = i + 1;
    }
    proof {
        assert(a.signed_blocks@ =~= b.signed_blocks@);
    }
    if a.signed_attestations.len() != b.signed_attestations.len() {
        return false;
    }
    let mut k: usize = 0;
    while k < a.signed_attestations.len()
        invariant
            0 <= k <= a.signed_attestations@.len(),
            a.signed_attestations@.len() == b.signed_attestations@.len(),
            forall|j: int| 0 <= j < k ==> a.signed_attestations@[j] == b.signed_attestations@[j],
        decreases a.signed_attestations@.len() - k,
    {
        if !attestation_entry_eq(&a.signed_attestations[k], &b.signed_attestations[k]) {
            return false;
        }
        k = k + 1;
    }
    proof {
        assert(a.signed_attestations@ =~= b.signed_attestations@);
    }
    true
}

/// Whether `v` holds an entry matching `x`.
fn complete_data_contains(v: &Vec<CompleteInterchangeData>, x: &CompleteInterchangeData) -> (r: bool)
    ensures
        r == has_complete_match(v@, *x),
{
    let mut i: usize = 0;
    while i < v.len()
        invariant
            0 <= i <= v@.len(),
            forall|j: int| 0 <= j < i ==> !complete_entry_matches(*x, #[trigger] v@[j]),
        decreases v@.len() - i,
    {
        if complete_entry_eq(x, &v[i]) {
            proof {
                assert(complete_entry_matches(*x, v@[i as int]));
            }
            return true;
        }
        i = i + 1;
    }
    false
}

impl Interchange {
    /// Whether the two documents carry the same protection information:
    /// equal metadata, and the same per-key records in any order.
    pub fn equiv(&self, other: &Interchange) -> (r: bool)
        ensures
            r == interchange_equiv(*self, *other),
    {
        let meta_eq = self.metadata.interchange_format == other.metadata.interchange_format
            && self.metadata.interchange_format_version == other.metadata.interchange_format_version
            && self.metadata.genesis_validators_root.0 == other.metadata.genesis_validators_root.0;
        if !meta_eq {
            return false;
        }
        match (&self.data, &other.data) {
            (InterchangeData::Minimal(x), InterchangeData::Minimal(y)) => {
                if x.len() != y.len() {
                    return false;
                }
                let mut i: usize = 0;
                while i < x.len()
                    invariant
                        self.metadata == other.metadata,
                        self.data == (InterchangeData::Minimal(*x)),
                        other.data == (InterchangeData::Minimal(*y)),
                        x@.len() == y@.len(),
                        0 <= i <= x@.len(),
                        forall|k: int| 0 <= k < i ==> #[trigger] has_minimal_entry(y@, x@[k]),
                    decreases x@.len() - i,
                {
                    if !minimal_data_contains(y, &x[i]) {
                        return false;
                    }
                    i = i + 1;
                }
                let mut j: usize = 0;
                while j < y.len()
                    invariant
                        self.metadata == other.metadata,
                        self.data == (InterchangeData::Minimal(*x)),
                        other.data == (InterchangeData::Minimal(*y)),
                        0 <= j <= y@.len(),
                        x@.len() == y@.len(),
                        forall|k: int| 0 <= k < x@.len() ==> #[trigger] has_minimal_entry(y@, x@[k]),
                        forall|k: int| 0 <= k < j ==> #[trigger] has_minimal_entry(x@, y@[k]),
                    decreases y@.len() - j,
                {
                    if !minimal_data_contains(x, &y[j]) {
                        return false;
                    }
                    j = j + 1;
                }
                true
            },
            (InterchangeData::Complete(x), InterchangeData::Complete(y)) => {
                if x.len() != y.len() {
                    return false;
                }
                let mut i: usize = 0;
                while i < x.len()
                    invariant
                        self.metadata == other.metadata,
                        self.data == (InterchangeData::Complete(*x)),
                        other.data == (InterchangeData::Complete(*y)),
                        x@.len() == y@.len(),
                        0 <= i <= x@.len(),
                        forall|k: int| 0 <= k < i ==> #[trigger] has_complete_match(y@, x@[k]),
                    decreases x@.len() - i,
                {
                    if !complete_data_contains(y, &x[i]) {
                        return false;
                    }
                    i = i + 1;
                }
                let mut j: usize = 0;
                while j < y.len()
                    invariant
                        self.metadata == other.metadata,
                        self.data == (InterchangeData::Complete(*x)),
                        other.data == (InterchangeData::Complete(*y)),
                        0 <= j <= y@.len(),
                        x@.len() == y@.len(),
                        forall|k: int| 0 <= k < x@.len() ==> #[trigger] has_complete_match(y@, x@[k]),
                        forall|k: int| 0 <= k < j ==> #[trigger] has_complete_match(x@, y@[k]),
                    decreases y@.len() - j,
                {
                    if !complete_data_contains(x, &y[j]) {
                        return false;
                    }
                    j = j + 1;
                }
                true
            },
            _ => false,
        }
    }
}

} // verus!
