//! Aggregate-and-proof messages, with a symbolic model of BLS signing.
//!
//! The protocol signs an object's hash tree root combined with a domain
//! (a purpose tag, the fork version in force, and the chain identity).
//! This library models that symbolically: a [`Signature`] carries the
//! signer's public key and the exact [`SigningData`] it covers, and
//! verification compares them. What the real scheme guarantees
//! cryptographically — a signature verifies exactly under the producer's
//! key and for the signed message — the model states directly, so every
//! rule built on top of signing is verified against it.

use vstd::prelude::*;

use crate::types::{Epoch, Hash256, PublicKey, SecretKey, Slot};

verus! {

/// The signature purposes used by this library.
#[derive(Clone, Copy, Debug, PartialEq, Eq, Structural)]
pub enum Domain {
    BeaconProposer,
    BeaconAttester,
    SelectionProof,
    AggregateAndProof,
}

/// A fork: the chain's previous and current version numbers and the epoch
/// at which the current one took effect.
#[derive(Clone, Copy, Debug, PartialEq, Eq, Structural)]
pub struct Fork {
    pub previous_version: u64,
    pub current_version: u64,
    pub epoch: Epoch,
}

/// The chain parameters that signing depends on.
#[derive(Clone, Copy, Debug, PartialEq, Eq, Structural)]
pub struct ChainSpec {
    pub slots_per_epoch: u64,
}

/// The fork version in force at `epoch`.
pub open spec fn fork_version_at(fork: Fork, epoch: Epoch) -> u64 {
    if epoch.0 < fork.epoch.0 {
        fork.previous_version
    } else {
        fork.current_version
    }
}

/// A fully computed signing domain.
#[derive(Clone, Copy, Debug, PartialEq, Eq, Structural)]
pub struct DomainValue {
    pub kind: Domain,
    pub fork_version: u64,
    pub genesis_validators_root: Hash256,
}

/// The domain separating signatures of `kind` at `epoch`.
pub open spec fn domain_of(kind: Domain, epoch: Epoch, fork: Fork, genesis_validators_root: Hash256) -> DomainValue {
    DomainValue { kind, fork_version: fork_version_at(fork, epoch), genesis_validators_root }
}

/// The epoch a slot belongs to.
pub open spec fn slot_epoch(slot: Slot, slots_per_epoch: u64) -> Epoch
    recommends
        slots_per_epoch > 0,
{
    Epoch(slot.0 / slots_per_epoch)
}

impl ChainSpec {
    /// The mainnet parameters.
    pub fn mainnet() -> (cs: ChainSpec)
        ensures
            cs.slots_per_epoch == 32,
    {
        ChainSpec { slots_per_epoch: 32 }
    }

    /// Compute the domain separating signatures of `kind` at `epoch`.
    pub fn get_domain(&self, epoch: Epoch, kind: Domain, fork: &Fork, genesis_validators_root: Hash256) -> (d: DomainValue)
        ensures
            d == domain_of(kind, epoch, *fork, genesis_validators_root),
    {
        let fork_version = if epoch.0 < fork.epoch.0 {
            fork.previous_version
        } else {
            fork.current_version
        };
        DomainValue { kind, fork_version, genesis_validators_root }
    }
}

/// A source or target checkpoint of an attestation.
#[derive(Clone, Copy, Debug, PartialEq, Eq, Structural)]
pub struct Checkpoint {
    pub epoch: Epoch,
    pub root: Hash256,
}

/// The data of an attestation.
#[derive(Clone, Copy, Debug, PartialEq, Eq, Structural)]
pub struct AttestationData {
    pub slot: Slot,
    pub index: u64,
    pub beacon_block_root: Hash256,
    pub source: Checkpoint,
    pub target: Checkpoint,
}

/// An aggregate attestation.
#[derive(Clone, Copy, Debug, PartialEq, Eq, Structural)]
pub struct Attestation {
    pub data: AttestationData,
}

/// The identity of a signed object: what the protocol would hash.
#[derive(Clone, Copy, Debug, PartialEq, Eq, Structural)]
pub enum ObjectRoot {
    Slot { slot: Slot },
    Aggregate { aggregator_index: u64, data: AttestationData },
}

/// What a signature covers: the signed object together with its domain.
#[derive(Clone, Copy, Debug, PartialEq, Eq, Structural)]
pub struct SigningData {
    pub object_root: ObjectRoot,
    pub domain: DomainValue,
}

/// A signature, modelled symbolically by its signer and what it covers.
#[derive(Clone, Copy, Debug, PartialEq, Eq, Structural)]
pub struct Signature {
    pub signer: PublicKey,
    pub message: SigningData,
}

impl SecretKey {
    /// Sign `message`: the signature covers exactly `message` under this
    /// key.
    pub fn sign(&self, message: SigningData) -> (sig: Signature)
        ensures
            sig == (Signature { signer: PublicKey(self.0), message }),
    {
        Signature { signer: self.public_key(), message }
    }
}

impl Signature {
    /// Verify: true exactly for the signer's public key and the covered
    /// message.
    pub fn verify(&self, validator_pubkey: &PublicKey, message: SigningData) -> (r: bool)
        ensures
            r == (self.signer == *validator_pubkey && self.message == message),
    {
        self.signer == *validator_pubkey && self.message == message
    }
}

/// What a selection proof signs: the aggregate's slot under the
/// selection-proof domain of that slot's epoch.
pub open spec fn selection_signing_data(slot: Slot, fork: Fork, genesis_validators_root: Hash256, cs: ChainSpec) -> SigningData {
    SigningData {
        object_root: ObjectRoot::Slot { slot },
        domain: domain_of(
            Domain::SelectionProof,
            slot_epoch(slot, cs.slots_per_epoch),
            fork,
            genesis_validators_root,
        ),
    }
}

/// What a signed aggregate-and-proof signs: the aggregator index and the
/// aggregate's data under the aggregate-and-proof domain of the
/// aggregate's epoch.
pub open spec fn aggregate_signing_data(
    aggregator_index: u64,
    data: AttestationData,
    fork: Fork,
    genesis_validators_root: Hash256,
    cs: ChainSpec,
) -> SigningData {
    SigningData {
        object_root: ObjectRoot::Aggregate { aggregator_index, data },
        domain: domain_of(
            Domain::AggregateAndProof,
            slot_epoch(data.slot, cs.slots_per_epoch),
            fork,
            genesis_validators_root,
        ),
    }
}

/// Proof that a validator was selected to aggregate at a slot: the slot,
/// signed by the validator's key.
#[derive(Clone, Copy, Debug, PartialEq, Eq, Structural)]
pub struct SelectionProof(pub Signature);

impl SelectionProof {
    /// Produce a selection proof by signing `slot`.
    pub fn new(
        slot: Slot,
        secret_key: &SecretKey,
        fork: &Fork,
        genesis_validators_root: Hash256,
        chain_spec: &ChainSpec,
    ) -> (p: SelectionProof)
        requires
            chain_spec.slots_per_epoch > 0,
        ensures
            p.0 == (Signature {
                signer: PublicKey(secret_key.0),
                message: selection_signing_data(slot, *fork, genesis_validators_root, *chain_spec),
            }),
    {
        let epoch = slot.epoch(chain_spec.slots_per_epoch);
        let domain = chain_spec.get_domain(epoch, Domain::SelectionProof, fork, genesis_validators_root);
        SelectionProof(secret_key.sign(SigningData { object_root: ObjectRoot::Slot { slot }, domain }))
    }
}

/// An aggregate attestation together with the index of the aggregating
/// validator and its selection proof.
#[derive(Clone, Copy, Debug, PartialEq, Eq, Structural)]
pub struct AggregateAndProof {
    /// The index of the validator that produced this message.
    pub aggregator_index: u64,
    /// The aggregate attestation.
    pub aggregate: Attestation,
    /// Proof that the validator was selected to aggregate at this slot.
    pub selection_proof: SelectionProof,
}

impl AggregateAndProof {
    /// Build the message; when no selection proof is supplied, one is
    /// computed by signing the aggregate's slot with `secret_key`.
    pub fn from_aggregate(
        aggregator_index: u64,
        aggregate: Attestation,
        selection_proof: Option<SelectionProof>,
        secret_key: &SecretKey,
        fork: &Fork,
        genesis_validators_root: Hash256,
        chain_spec: &ChainSpec,
    ) -> (m: Self)
        requires
            chain_spec.slots_per_epoch > 0,
        ensures
            m.aggregator_index == aggregator_index,
            m.aggregate == aggregate,
            (match selection_proof {
                Option::Some(p) => m.selection_proof == p,
                Option::None => m.selection_proof.0 == (Signature {
                    signer: PublicKey(secret_key.0),
                    message: selection_signing_data(
                        aggregate.data.slot,
                        *fork,
                        genesis_validators_root,
                        *chain_spec,
                    ),
                }),
            }),
    {
        let proof_value = match selection_proof {
            Option::Some(p) => p,
            Option::None => SelectionProof::new(
                aggregate.data.slot,
                secret_key,
                fork,
                genesis_validators_root,
                chain_spec,
            ),
        };
        AggregateAndProof { aggregator_index, aggregate, selection_proof: proof_value }
    }

    /// Whether the contained selection proof is the aggregate's slot
    /// signed by `validator_pubkey`'s key.
    pub fn is_valid_selection_proof(
        &self,
        validator_pubkey: &PublicKey,
        fork: &Fork,
        genesis_validators_root: Hash256,
        chain_spec: &ChainSpec,
    ) -> (r: bool)
        requires
            chain_spec.slots_per_epoch > 0,
        ensures
            r == (self.selection_proof.0.signer == *validator_pubkey && self.selection_proof.0.message
                == selection_signing_data(
                self.aggregate.data.slot,
                *fork,
                genesis_validators_root,
                *chain_spec,
            )),
    {
        let slot = self.aggregate.data.slot;
        let epoch = slot.epoch(chain_spec.slots_per_epoch);
        let domain = chain_spec.get_domain(epoch, Domain::SelectionProof, fork, genesis_validators_root);
        self.selection_proof.0.verify(
            validator_pubkey,
            SigningData { object_root: ObjectRoot::Slot { slot }, domain },
        )
    }
}

/// A validator's signed aggregate proof, published on the aggregation
/// gossip topic.
#[derive(Clone, Copy, Debug, PartialEq, Eq, Structural)]
pub struct SignedAggregateAndProof {
    /// The `AggregateAndProof` that was signed.
    pub message: AggregateAndProof,
    /// The signature over the message.
    pub signature: Signature,
}

impl SignedAggregateAndProof {
    /// Produce a signed `AggregateAndProof`, computing the selection proof
    /// by signing the aggregate's slot when none is supplied.
    pub fn from_aggregate(
        aggregator_index: u64,
        aggregate: Attestation,
        selection_proof: Option<SelectionProof>,
        secret_key: &SecretKey,
        fork: &Fork,
        genesis_validators_root: Hash256,
        chain_spec: &ChainSpec,
    ) -> (s: Self)
        requires
            chain_spec.slots_per_epoch > 0,
        ensures
            s.message.aggregator_index == aggregator_index,
            s.message.aggregate == aggregate,
            (match selection_proof {
                Option::Some(p) => s.message.selection_proof == p,
                Option::None => s.message.selection_proof.0 == (Signature {
                    signer: PublicKey(secret_key.0),
                    message: selection_signing_data(
                        aggregate.data.slot,
                        *fork,
                        genesis_validators_root,
                        *chain_spec,
                    ),
                }),
            }),
            s.signature == (Signature {
                signer: PublicKey(secret_key.0),
                message: aggregate_signing_data(
                    aggregator_index,
                    aggregate.data,
                    *fork,
                    genesis_validators_root,
                    *chain_spec,
                ),
            }),
    {
        let message = AggregateAndProof::from_aggregate(
            aggregator_index,
            aggregate,
            selection_proof,
            secret_key,
            fork,
            genesis_validators_root,
            chain_spec,
        );
        let target_epoch = message.aggregate.data.slot.epoch(chain_spec.slots_per_epoch);
        let domain = chain_spec.get_domain(
            target_epoch,
            Domain::AggregateAndProof,
            fork,
            genesis_validators_root,
        );
        let signing_message = SigningData {
            object_root: ObjectRoot::Aggregate {
                aggregator_index: message.aggregator_index,
                data: message.aggregate.data,
            },
            domain,
        };
        SignedAggregateAndProof { message, signature: secret_key.sign(signing_message) }
    }

    /// Whether the signature covers this message under
    /// `validator_pubkey`'s key.
    pub fn is_valid_signature(
        &self,
        validator_pubkey: &PublicKey,
        fork: &Fork,
        genesis_validators_root: Hash256,
        chain_spec: &ChainSpec,
    ) -> (r: bool)
        requires
            chain_spec.slots_per_epoch > 0,
        ensures
            r == (self.signature.signer == *validator_pubkey && self.signature.message
                == aggregate_signing_data(
                self.message.aggregator_index,
                self.message.aggregate.data,
                *fork,
                genesis_validators_root,
                *chain_spec,
            )),
    {
        let target_epoch = self.message.aggregate.data.slot.epoch(chain_spec.slots_per_epoch);
        let domain = chain_spec.get_domain(
            target_epoch,
            Domain::AggregateAndProof,
            fork,
            genesis_validators_root,
        );
        let message = SigningData {
            object_root: ObjectRoot::Aggregate {
                aggregator_index: self.message.aggregator_index,
                data: self.message.aggregate.data,
            },
            domain,
        };
        self.signature.verify(validator_pubkey, message)
    }

    /// Whether both the signature over the message and the contained
    /// selection proof are valid under `validator_pubkey`'s key.
    pub fn is_valid(
        &self,
        validator_pubkey: &PublicKey,
        fork: &Fork,
        genesis_validators_root: Hash256,
        chain_spec: &ChainSpec,
    ) -> (r: bool)
        requires
            chain_spec.slots_per_epoch > 0,
        ensures
            r == ((self.signature.signer == *validator_pubkey && self.signature.message
                == aggregate_signing_data(
                self.message.aggregator_index,
                self.message.aggregate.data,
                *fork,
                genesis_validators_root,
                *chain_spec,
            )) && (self.message.selection_proof.0.signer == *validator_pubkey
                && self.message.selection_proof.0.message == selection_signing_data(
                self.message.aggregate.data.slot,
                *fork,
                genesis_validators_root,
                *chain_spec,
            ))),
    {
        self.is_valid_signature(validator_pubkey, fork, genesis_validators_root, chain_spec)
            && self.message.is_valid_selection_proof(
            validator_pubkey,
            fork,
            genesis_validators_root,
            chain_spec,
        )
    }
}

} // verus!
