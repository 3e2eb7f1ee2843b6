//! The protection guard: the atomic check-and-insert entry points.
//!
//! Each call reads the key's recorded history, runs the slashing rule
//! evaluator, and either records the new signing action or refuses with the
//! violated condition. No signature may be released by the surrounding
//! signing workflow unless the guard returned `Ok`.

use vstd::prelude::*;

use crate::rules::{
    attestation_verdict, block_verdict, evaluate_attestation, evaluate_block, has_exact_vote,
    is_exact_vote, NotSafe, SlashingError, Verdict,
};
use crate::store::{
    lemma_unique_index, lemma_view_update, AttestationSigningRecord, BlockSigningRecord,
    SlashingDatabase, ValidatorHistory,
};
use crate::types::{Epoch, Hash256, PublicKey, Slot};

verus! {

/// The attestation history after an accepted vote: unchanged on an exact
/// replay, extended by the new record otherwise.
pub open spec fn attestation_history_after(
    hist: Seq<AttestationSigningRecord>,
    source: Epoch,
    target: Epoch,
    root: Hash256,
) -> Seq<AttestationSigningRecord> {
    if has_exact_vote(hist, source, target, root) {
        hist
    } else {
        hist.push(AttestationSigningRecord { source, target, signing_root: Option::Some(root) })
    }
}

/// One key's model after an accepted block proposal.
pub open spec fn history_after_block(h: ValidatorHistory, slot: Slot, root: Hash256) -> ValidatorHistory {
    ValidatorHistory {
        block: Option::Some(BlockSigningRecord { slot, signing_root: Option::Some(root) }),
        attestations: h.attestations,
    }
}

/// One key's model after an accepted attestation.
pub open spec fn history_after_attestation(
    h: ValidatorHistory,
    source: Epoch,
    target: Epoch,
    root: Hash256,
) -> ValidatorHistory {
    ValidatorHistory {
        block: h.block,
        attestations: attestation_history_after(h.attestations, source, target, root),
    }
}

impl SlashingDatabase {
    /// Check a candidate block proposal against the key's record and, when
    /// it is safe, record it. The recorded proposal becomes the candidate
    /// `(slot, signing_root)` exactly when the verdict allows; on any
    /// refusal the store is unchanged.
    pub fn check_and_insert_block_signing_root(
        &mut self,
        pubkey: &PublicKey,
        slot: Slot,
        signing_root: Hash256,
    ) -> (r: Result<(), NotSafe>)
        requires
            old(self).wf(),
        ensures
            final(self).wf(),
            !old(self)@.dom().contains(*pubkey) ==> r == Err::<(), NotSafe>(NotSafe::KeyNotRegistered)
                && *final(self) == *old(self),
            old(self)@.dom().contains(*pubkey) ==> match block_verdict(
                old(self)@[*pubkey].block,
                slot,
                signing_root,
            ) {
                Verdict::Allow => r is Ok && final(self)@ == old(self)@.insert(
                    *pubkey,
                    history_after_block(old(self)@[*pubkey], slot, signing_root),
                ),
                Verdict::Deny(e) => r == Err::<(), NotSafe>(NotSafe::Slashable(e)) && *final(self)
                    == *old(self),
            },
    {
        let found = self.find_index(pubkey);
        match found {
            Option::None => Err(NotSafe::KeyNotRegistered),
            Option::Some(i) => {
                proof {
                    lemma_unique_index(self.entries@, i as int, *pubkey);
                }
                let v = evaluate_block(&self.entries[i].block, slot, signing_root);
                match v {
                    Verdict::Deny(e) => Err(NotSafe::Slashable(e)),
                    Verdict::Allow => {
                        let ghost s = self.entries@;
                        self.entries[i].block = Option::Some(
                            BlockSigningRecord { slot, signing_root: Option::Some(signing_root) },
                        );
                        proof {
                            lemma_view_update(s, i as int, self.entries@[i as int]);
                        }
                        Ok(())
                    },
                }
            },
        }
    }

    /// Check a candidate attestation against the key's vote history and,
    /// when it is safe, record it. An exact replay of a recorded vote
    /// leaves the store unchanged; a new safe vote is appended to the
    /// history; on any refusal the store is unchanged.
    pub fn check_and_insert_attestation_signing_root(
        &mut self,
        pubkey: &PublicKey,
        source: Epoch,
        target: Epoch,
        signing_root: Hash256,
    ) -> (r: Result<(), NotSafe>)
        requires
            old(self).wf(),
        ensures
            final(self).wf(),
            !old(self)@.dom().contains(*pubkey) ==> r == Err::<(), NotSafe>(NotSafe::KeyNotRegistered)
                && *final(self) == *old(self),
            old(self)@.dom().contains(*pubkey) ==> match attestation_verdict(
                old(self)@[*pubkey].attestations,
                source,
                target,
                signing_root,
            ) {
                Verdict::Allow => r is Ok && final(self)@ == old(self)@.insert(
                    *pubkey,
                    history_after_attestation(old(self)@[*pubkey], source, target, signing_root),
                ),
                Verdict::Deny(e) => r == Err::<(), NotSafe>(NotSafe::Slashable(e)) && *final(self)
                    == *old(self),
            },
    {
        let found = self.find_index(pubkey);
        match found {
            Option::None => Err(NotSafe::KeyNotRegistered),
            Option::Some(i) => {
                proof {
                    lemma_unique_index(self.entries@, i as int, *pubkey);
                }
                let v = evaluate_attestation(&self.entries[i].attestations, source, target, signing_root);
                match v {
                    Verdict::Deny(e) => Err(NotSafe::Slashable(e)),
                    Verdict::Allow => {
                        let replay = contains_exact_vote(
                            &self.entries[i].attestations,
                            source,
                            target,
                            signing_root,
                        );
                        if replay {
                            proof {
                                assert(self@ =~= self@.insert(
                                    *pubkey,
                                    history_after_attestation(
                                        self@[*pubkey],
                                        source,
                                        target,
                                        signing_root,
                                    ),
                                ));
                            }
                            Ok(())
                        } else {
                            let ghost s = self.entries@;
                            self.entries[i].attestations.push(
                                AttestationSigningRecord {
                                    source,
                                    target,
                                    signing_root: Option::Some(signing_root),
                                },
                            );
                            proof {
                                lemma_view_update(s, i as int, self.entries@[i as int]);
                            }
                            Ok(())
                        }
                    },
                }
            },
        }
    }
}

/// Whether the history holds an exact earlier occurrence of the vote.
fn contains_exact_vote(
    hist: &Vec<AttestationSigningRecord>,
    source: Epoch,
    target: Epoch,
    root: Hash256,
) -> (r: bool)
    ensures
        r == has_exact_vote(hist@, source, target, root),
{
    let mut i: usize = 0;
    while i < hist.len()
        invariant
            0 <= i <= hist@.len(),
            forall|j: int| 0 <= j < i ==> !is_exact_vote(hist@[j], source, target, root),
        decreases hist@.len() - i,
    {
        let r = hist[i];
        let root_matches = match r.signing_root {
            Option::Some(prev_root) => prev_root == root,
            Option::None => false,
        };
        if r.source.0 == source.0 && r.target.0 == target.0 && root_matches {
            proof {
                assert(is_exact_vote(hist@[i as int], source, target, root));
            }
            return true;
        }
        i = i + 1;
    }
    false
}

/// Every proposal in the sequence is allowed when checked in order, each
/// accepted proposal becoming the record the next one is checked against.
pub open spec fn blocks_all_allowed(h: ValidatorHistory, proposals: Seq<(Slot, Hash256)>) -> bool
    decreases proposals.len(),
{
    if proposals.len() == 0 {
        true
    } else {
        &&& block_verdict(h.block, proposals[0].0, proposals[0].1) is Allow
        &&& blocks_all_allowed(
            history_after_block(h, proposals[0].0, proposals[0].1),
            proposals.drop_first(),
        )
    }
}

/// Law: a strictly increasing sequence of block slots, starting above the
/// recorded bound, is accepted in full — every proposal in it is allowed.
pub proof fn lemma_increasing_slots_always_allowed(h: ValidatorHistory, proposals: Seq<(Slot, Hash256)>)
    requires
        forall|i: int, j: int| 0 <= i < j < proposals.len() ==> proposals[i].0.0 < proposals[j].0.0,
        proposals.len() > 0 ==> (h.block matches Option::Some(r) ==> proposals[0].0.0 > r.slot.0),
    ensures
        blocks_all_allowed(h, proposals),
    decreases proposals.len(),
{
    if proposals.len() > 0 {
        let h1 = history_after_block(h, proposals[0].0, proposals[0].1);
        let rest = proposals.drop_first();
        assert(forall|i: int, j: int| 0 <= i < j < rest.len() ==> rest[i].0.0 < rest[j].0.0) by {
            assert(forall|i: int| 0 <= i < rest.len() ==> rest[i] == proposals[i + 1]);
        }
        if rest.len() > 0 {
            assert(rest[0] == proposals[1]);
        }
        lemma_increasing_slots_always_allowed(h1, rest);
    }
}

/// Law: an exact replay of the recorded proposal is allowed; the recorded
/// slot with any other root is refused as a double proposal.
pub proof fn lemma_block_replay_rules(rec: BlockSigningRecord, root: Hash256)
    ensures
        rec.signing_root == Some(root) ==> block_verdict(Option::Some(rec), rec.slot, root)
            == Verdict::Allow,
        rec.signing_root != Some(root) ==> block_verdict(Option::Some(rec), rec.slot, root)
            == Verdict::Deny(SlashingError::DoubleProposal),
{
}

/// Law: a proposal below the recorded slot is refused as a decreasing slot.
pub proof fn lemma_decreasing_slot_denied(rec: BlockSigningRecord, slot: Slot, root: Hash256)
    requires
        slot.0 < rec.slot.0,
    ensures
        block_verdict(Option::Some(rec), slot, root) == Verdict::Deny(
            SlashingError::DecreasingSlot,
        ),
{
}

} // verus!
