//! Validator duty descriptions and the pure decisions taken over them.
//!
//! Fetching duties and sync status from a beacon node is I/O and lives
//! outside this library; what is verified here is what the validator
//! client decides once the responses are in hand: how a duty record is
//! assembled, when two duty records agree, which committee subscription a
//! duty announces, and when a node counts as synced.

use vstd::prelude::*;

use crate::types::{CommitteeIndex, PublicKey, Slot};

verus! {

/// How many slots a syncing beacon node may lag and still be used.
pub const SYNC_TOLERANCE: u64 = 4;

/// A request to subscribe to a beacon committee.
#[derive(Clone, Copy, Debug, PartialEq, Eq, Structural)]
pub struct BeaconCommitteeSubscription {
    pub validator_index: u64,
    pub committee_index: CommitteeIndex,
    pub committees_at_slot: u64,
    pub slot: Slot,
    pub is_aggregator: bool,
}

/// One validator's attester duty as a beacon node reports it.
#[derive(Clone, Copy, Debug, PartialEq, Eq, Structural)]
pub struct AttesterData {
    pub pubkey: PublicKey,
    pub validator_index: u64,
    pub committees_at_slot: u64,
    pub committee_index: CommitteeIndex,
    pub committee_length: u64,
    pub validator_committee_index: u64,
    pub slot: Slot,
}

/// One proposer duty as a beacon node reports it.
#[derive(Clone, Copy, Debug, PartialEq, Eq, Structural)]
pub struct ProposerData {
    pub pubkey: PublicKey,
    pub validator_index: u64,
    pub slot: Slot,
}

/// The slots at which `pubkey` must propose, among the epoch's proposer
/// duties, in order.
pub open spec fn proposal_slots_of(pubkey: PublicKey, duties: Seq<ProposerData>) -> Seq<Slot>
    decreases duties.len(),
{
    if duties.len() == 0 {
        Seq::empty()
    } else {
        let rest = proposal_slots_of(pubkey, duties.drop_last());
        if duties.last().pubkey == pubkey {
            rest.push(duties.last().slot)
        } else {
            rest
        }
    }
}

/// The duties of one validator for an epoch.
#[derive(Clone, Debug, PartialEq, Eq)]
pub struct ValidatorDuty {
    /// The validator's BLS public key, uniquely identifying them.
    pub validator_pubkey: PublicKey,
    /// The validator's index in the beacon state's validator registry.
    pub validator_index: Option<u64>,
    /// The slot at which the validator must attest.
    pub attestation_slot: Option<Slot>,
    /// The index of the committee within `slot` of which the validator is a member.
    pub attestation_committee_index: Option<CommitteeIndex>,
    /// The position of the validator in the committee.
    pub attestation_committee_position: Option<usize>,
    /// The committee count at `attestation_slot`.
    pub committee_count_at_slot: Option<u64>,
    /// The number of validators in the committee.
    pub committee_length: Option<u64>,
    /// The slots in which the validator must propose a block (can be
    /// empty); `None` when duties are not yet known.
    pub block_proposal_slots: Option<Vec<Slot>>,
}

impl ValidatorDuty {
    /// The duty record of a validator with no duties in the epoch.
    pub fn no_duties(validator_pubkey: PublicKey) -> (d: Self)
        ensures
            d.validator_pubkey == validator_pubkey,
            d.validator_index is None,
            d.attestation_slot is None,
            d.attestation_committee_index is None,
            d.attestation_committee_position is None,
            d.committee_count_at_slot is None,
            d.committee_length is None,
            d.block_proposal_slots is None,
    {
        ValidatorDuty {
            validator_pubkey,
            validator_index: Option::None,
            attestation_slot: Option::None,
            attestation_committee_index: Option::None,
            attestation_committee_position: Option::None,
            committee_count_at_slot: Option::None,
            committee_length: Option::None,
            block_proposal_slots: Option::None,
        }
    }

    /// Assemble one validator's duty record from the responses fetched for
    /// an epoch: the validator's attester duty, if it has one, and the
    /// epoch's proposer duties, of which the validator's own proposal
    /// slots are kept.
    pub fn from_duty_responses(
        pubkey: PublicKey,
        attester: Option<&AttesterData>,
        proposer_duties: &Vec<ProposerData>,
    ) -> (d: Self)
        ensures
            d.validator_pubkey == pubkey,
            attester is None ==> d.validator_index is None && d.attestation_slot is None
                && d.attestation_committee_index is None && d.attestation_committee_position is None
                && d.committee_count_at_slot is None && d.committee_length is None
                && d.block_proposal_slots is None,
            (match attester {
                Option::Some(a) => d.validator_index == Option::Some(a.validator_index)
                    && d.attestation_slot == Option::Some(a.slot) && d.attestation_committee_index
                    == Option::Some(a.committee_index) && d.attestation_committee_position
                    == Option::Some(a.validator_committee_index as usize) && d.committee_count_at_slot
                    == Option::Some(a.committees_at_slot) && d.committee_length == Option::Some(
                    a.committee_length,
                ) && (d.block_proposal_slots matches Option::Some(v) && v@ == proposal_slots_of(
                    pubkey,
                    proposer_duties@,
                )),
                Option::None => true,
            }),
    {
        match attester {
            Option::None => Self::no_duties(pubkey),
            Option::Some(a) => {
                let mut slots: Vec<Slot> = Vec::new();
                let mut i: usize = 0;
                while i < proposer_duties.len()
                    invariant
                        0 <= i <= proposer_duties@.len(),
                        slots@ == proposal_slots_of(pubkey, proposer_duties@.subrange(0, i as int)),
                    decreases proposer_duties@.len() - i,
                {
                    let ghost prefix = proposer_duties@.subrange(0, i as int);
                    let ghost prefix1 = proposer_duties@.subrange(0, i + 1 as int);
                    proof {
                        assert(prefix1.drop_last() =~= prefix);
                        assert(prefix1.last() == proposer_duties@[i as int]);
                    }
                    if proposer_duties[i].pubkey == pubkey {
                        slots.push(proposer_duties[i].slot);
                    }
                    i = i + 1;
                }
                proof {
                    assert(proposer_duties@.subrange(0, proposer_duties@.len() as int)
                        =~= proposer_duties@);
                }
                ValidatorDuty {
                    validator_pubkey: pubkey,
                    validator_index: Option::Some(a.validator_index),
                    attestation_slot: Option::Some(a.slot),
                    attestation_committee_index: Option::Some(a.committee_index),
                    attestation_committee_position: Option::Some(a.validator_committee_index as usize),
                    committee_count_at_slot: Option::Some(a.committees_at_slot),
                    committee_length: Option::Some(a.committee_length),
                    block_proposal_slots: Option::Some(slots),
                }
            },
        }
    }

    /// Return `true` if these validator duties are equal, ignoring their
    /// `block_proposal_slots`.
    pub fn eq_ignoring_proposal_slots(&self, other: &Self) -> (r: bool)
        ensures
            r == (self.validator_pubkey == other.validator_pubkey && self.validator_index
                == other.validator_index && self.attestation_slot == other.attestation_slot
                && self.attestation_committee_index == other.attestation_committee_index
                && self.attestation_committee_position == other.attestation_committee_position
                && self.committee_count_at_slot == other.committee_count_at_slot),
    {
        let index_eq = match (&self.validator_index, &other.validator_index) {
            (Option::None, Option::None) => true,
            (Option::Some(x), Option::Some(y)) => *x == *y,
            _ => false,
        };
        let slot_eq = match (&self.attestation_slot, &other.attestation_slot) {
            (Option::None, Option::None) => true,
            (Option::Some(x), Option::Some(y)) => x.0 == y.0,
            _ => false,
        };
        let committee_eq = match (&self.attestation_committee_index, &other.attestation_committee_index) {
            (Option::None, Option::None) => true,
            (Option::Some(x), Option::Some(y)) => *x == *y,
            _ => false,
        };
        let position_eq = match (
            &self.attestation_committee_position,
            &other.attestation_committee_position,
        ) {
            (Option::None, Option::None) => true,
            (Option::Some(x), Option::Some(y)) => *x == *y,
            _ => false,
        };
        let count_eq = match (&self.committee_count_at_slot, &other.committee_count_at_slot) {
            (Option::None, Option::None) => true,
            (Option::Some(x), Option::Some(y)) => *x == *y,
            _ => false,
        };
        self.validator_pubkey == other.validator_pubkey && index_eq && slot_eq && committee_eq
            && position_eq && count_eq
    }

    /// The committee subscription this duty announces, when every field it
    /// needs is known.
    pub fn subscription(&self, is_aggregator: bool) -> (r: Option<BeaconCommitteeSubscription>)
        ensures
            (match (
                self.validator_index,
                self.attestation_committee_index,
                self.committee_count_at_slot,
                self.attestation_slot,
            ) {
                (
                    Option::Some(vi),
                    Option::Some(ci),
                    Option::Some(cc),
                    Option::Some(sl),
                ) => r == Option::Some(
                    BeaconCommitteeSubscription {
                        validator_index: vi,
                        committee_index: ci,
                        committees_at_slot: cc,
                        slot: sl,
                        is_aggregator,
                    },
                ),
                _ => r is None,
            }),
    {
        match (
            &self.validator_index,
            &self.attestation_committee_index,
            &self.committee_count_at_slot,
            &self.attestation_slot,
        ) {
            (Option::Some(vi), Option::Some(ci), Option::Some(cc), Option::Some(sl)) => Option::Some(
                BeaconCommitteeSubscription {
                    validator_index: *vi,
                    committee_index: *ci,
                    committees_at_slot: *cc,
                    slot: *sl,
                    is_aggregator,
                },
            ),
            _ => Option::None,
        }
    }
}

/// Whether a beacon node's reported sync status is good enough to use:
/// the node does not report syncing at all, or it lags by fewer than
/// [`SYNC_TOLERANCE`] slots. An unreachable node is handled by the caller
/// and never counts as synced.
pub fn is_synced_status(is_syncing: bool, sync_distance: u64) -> (r: bool)
    ensures
        r == (!is_syncing || sync_distance < SYNC_TOLERANCE),
{
    !is_syncing || sync_distance < SYNC_TOLERANCE
}

} // verus!
