//! The slashing rule evaluator: pure logic that, given a candidate signing
//! action and a key's recorded history, decides whether signing is safe.
//!
//! Block proposals are judged against the highest-slot block already signed;
//! attestations are judged against the recorded vote history under the
//! Casper-FFG slashing conditions (double vote and surround vote), plus the
//! monotonicity rules that keep the recorded bounds meaningful.

use vstd::prelude::*;

use crate::store::{AttestationSigningRecord, BlockSigningRecord};
use crate::types::{Epoch, Hash256, Slot};

verus! {

/// A slashing condition that a candidate signing action would violate.
#[derive(Clone, Copy, Debug, PartialEq, Eq, Structural)]
pub enum SlashingError {
    /// Same block slot as an accepted proposal, different signing root.
    DoubleProposal,
    /// Block slot lower than the highest accepted proposal.
    DecreasingSlot,
    /// Same attestation target epoch as an accepted vote, different root.
    DoubleVote,
    /// One vote's (source, target) range strictly encloses the other's.
    SurroundingVote,
    /// Attestation target epoch lower than the highest accepted target.
    DecreasingTarget,
    /// Malformed vote with source epoch above target epoch.
    InvalidRange,
}

/// Why the guard refused to record a signing action.
#[derive(Clone, Copy, Debug, PartialEq, Eq, Structural)]
pub enum NotSafe {
    /// The key was never registered with the store.
    KeyNotRegistered,
    /// Signing would violate a slashing condition.
    Slashable(SlashingError),
}

/// The evaluator's decision on a candidate signing action.
#[derive(Clone, Copy, Debug, PartialEq, Eq, Structural)]
pub enum Verdict {
    Allow,
    Deny(SlashingError),
}

/// The block rule: a proposal is permitted when no block was signed yet,
/// when its slot is strictly higher than the recorded one, or when it is an
/// exact replay of the recorded proposal.
pub open spec fn block_verdict(prev: Option<BlockSigningRecord>, slot: Slot, root: Hash256) -> Verdict {
    match prev {
        Option::None => Verdict::Allow,
        Option::Some(r) => {
            if slot.0 < r.slot.0 {
                Verdict::Deny(SlashingError::DecreasingSlot)
            } else if slot.0 == r.slot.0 {
                if r.signing_root == Some(root) {
                    Verdict::Allow
                } else {
                    Verdict::Deny(SlashingError::DoubleProposal)
                }
            } else {
                Verdict::Allow
            }
        },
    }
}

/// `r` is an exact earlier occurrence of the candidate vote.
pub open spec fn is_exact_vote(r: AttestationSigningRecord, source: Epoch, target: Epoch, root: Hash256) -> bool {
    r.source == source && r.target == target && r.signing_root == Some(root)
}

/// `r` was voted at the candidate's target epoch with a different (or
/// unknown) signing root.
pub open spec fn is_conflicting_vote(r: AttestationSigningRecord, target: Epoch, root: Hash256) -> bool {
    r.target.0 == target.0 && r.signing_root != Some(root)
}

/// Either the recorded vote `r` strictly encloses the candidate's
/// (source, target) range, or the candidate strictly encloses `r`.
pub open spec fn is_surround_conflict(r: AttestationSigningRecord, source: Epoch, target: Epoch) -> bool {
    (r.source.0 < source.0 && target.0 < r.target.0) || (source.0 < r.source.0 && r.target.0 < target.0)
}

/// The history holds an exact earlier occurrence of the candidate vote.
pub open spec fn has_exact_vote(hist: Seq<AttestationSigningRecord>, source: Epoch, target: Epoch, root: Hash256) -> bool {
    exists|i: int| 0 <= i < hist.len() && is_exact_vote(hist[i], source, target, root)
}

/// The history holds a vote with a target epoch strictly above the candidate's.
pub open spec fn has_higher_target(hist: Seq<AttestationSigningRecord>, target: Epoch) -> bool {
    exists|i: int| 0 <= i < hist.len() && hist[i].target.0 > target.0
}

/// The history holds a vote at the candidate's target with another root.
pub open spec fn has_conflicting_vote(hist: Seq<AttestationSigningRecord>, target: Epoch, root: Hash256) -> bool {
    exists|i: int| 0 <= i < hist.len() && is_conflicting_vote(hist[i], target, root)
}

/// The history holds a vote that surrounds, or is surrounded by, the candidate.
pub open spec fn has_surround_conflict(hist: Seq<AttestationSigningRecord>, source: Epoch, target: Epoch) -> bool {
    exists|i: int| 0 <= i < hist.len() && is_surround_conflict(hist[i], source, target)
}

/// The attestation rule. A malformed range is always refused. An exact
/// replay of a recorded vote is permitted (idempotent replay). Otherwise:
/// a second vote at a recorded target with another root is a double vote;
/// a vote whose range strictly encloses or is strictly enclosed by a
/// recorded vote is a surround vote; a vote below the highest recorded
/// target is a regression; anything else is permitted.
pub open spec fn attestation_verdict(
    hist: Seq<AttestationSigningRecord>,
    source: Epoch,
    target: Epoch,
    root: Hash256,
) -> Verdict {
    if source.0 > target.0 {
        Verdict::Deny(SlashingError::InvalidRange)
    } else if has_exact_vote(hist, source, target, root) {
        Verdict::Allow
    } else if has_conflicting_vote(hist, target, root) {
        Verdict::Deny(SlashingError::DoubleVote)
    } else if has_surround_conflict(hist, source, target) {
        Verdict::Deny(SlashingError::SurroundingVote)
    } else if has_higher_target(hist, target) {
        Verdict::Deny(SlashingError::DecreasingTarget)
    } else {
        Verdict::Allow
    }
}

/// Evaluate the block rule against the recorded proposal, if any.
pub fn evaluate_block(prev: &Option<BlockSigningRecord>, slot: Slot, root: Hash256) -> (v: Verdict)
    ensures
        v == block_verdict(*prev, slot, root),
{
    match prev {
        Option::None => Verdict::Allow,
        Option::Some(r) => {
            if slot.0 < r.slot.0 {
                Verdict::Deny(SlashingError::DecreasingSlot)
            } else if slot.0 == r.slot.0 {
                let same_root = match r.signing_root {
                    Option::Some(prev_root) => prev_root == root,
                    Option::None => false,
                };
                if same_root {
                    Verdict::Allow
                } else {
                    Verdict::Deny(SlashingError::DoubleProposal)
                }
            } else {
                Verdict::Allow
            }
        },
    }
}

/// Evaluate the attestation rule against the recorded vote history.
pub fn evaluate_attestation(
    hist: &Vec<AttestationSigningRecord>,
    source: Epoch,
    target: Epoch,
    root: Hash256,
) -> (v: Verdict)
    ensures
        v == attestation_verdict(hist@, source, target, root),
{
    if source.0 > target.0 {
        return Verdict::Deny(SlashingError::InvalidRange);
    }
    let mut exact = false;
    let mut higher = false;
    let mut conflicting = false;
    let mut surround = false;
    let mut i: usize = 0;
    while i < hist.len()
        invariant
            0 <= i <= hist@.len(),
            exact == has_exact_vote(hist@.subrange(0, i as int), source, target, root),
            higher == has_higher_target(hist@.subrange(0, i as int), target),
            conflicting == has_conflicting_vote(hist@.subrange(0, i as int), target, root),
            surround == has_surround_conflict(hist@.subrange(0, i as int), source, target),
        decreases hist@.len() - i,
    {
        let r = hist[i];
        let root_matches = match r.signing_root {
            Option::Some(prev_root) => prev_root == root,
            Option::None => false,
        };
        let ghost prefix = hist@.subrange(0, i as int);
        let ghost prefix1 = hist@.subrange(0, i + 1 as int);
        proof {
            assert(prefix1 =~= prefix.push(hist@[i as int]));
            assert(forall|j: int| 0 <= j < prefix1.len() ==> prefix1[j] == if j < i as int {
                prefix[j]
            } else {
                hist@[i as int]
            });
        }
        if r.source.0 == source.0 && r.target.0 == target.0 && root_matches {
            exact = true;
            proof {
                assert(is_exact_vote(prefix1[i as int], source, target, root));
            }
        }
        if r.target.0 > target.0 {
            higher = true;
        }
        if r.target.0 == target.0 && !root_matches {
            conflicting = true;
            proof {
                assert(is_conflicting_vote(prefix1[i as int], target, root));
            }
        }
        if (r.source.0 < source.0 && target.0 < r.target.0) || (source.0 < r.source.0 && r.target.0 < target.0) {
            surround = true;
            proof {
                assert(is_surround_conflict(prefix1[i as int], source, target));
            }
        }
        proof {
            if has_exact_vote(prefix1, source, target, root) && !has_exact_vote(prefix, source, target, root) {
                let w = choose|j: int| 0 <= j < prefix1.len() && is_exact_vote(prefix1[j], source, target, root);
                assert(w == i as int);
            }
            if has_higher_target(prefix1, target) && !has_higher_target(prefix, target) {
                let w = choose|j: int| 0 <= j < prefix1.len() && prefix1[j].target.0 > target.0;
                assert(w == i as int);
            }
            if has_conflicting_vote(prefix1, target, root) && !has_conflicting_vote(prefix, target, root) {
                let w = choose|j: int| 0 <= j < prefix1.len() && is_conflicting_vote(prefix1[j], target, root);
                assert(w == i as int);
            }
            if has_surround_conflict(prefix1, source, target) && !has_surround_conflict(prefix, source, target) {
                let w = choose|j: int| 0 <= j < prefix1.len() && is_surround_conflict(prefix1[j], source, target);
                assert(w == i as int);
            }
        }
        i = i + 1;
    }
    proof {
        assert(hist@.subrange(0, hist@.len() as int) =~= hist@);
    }
    if exact {
        Verdict::Allow
    } else if conflicting {
        Verdict::Deny(SlashingError::DoubleVote)
    } else if surround {
        Verdict::Deny(SlashingError::SurroundingVote)
    } else if higher {
        Verdict::Deny(SlashingError::DecreasingTarget)
    } else {
        Verdict::Allow
    }
}

} // verus!
