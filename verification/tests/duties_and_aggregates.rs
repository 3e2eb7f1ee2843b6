use slashing_protection::aggregate::{
    AggregateAndProof, Attestation, AttestationData, ChainSpec, Checkpoint, Domain, DomainValue, Fork,
    SelectionProof, SignedAggregateAndProof,
};
use slashing_protection::duties::{
    is_synced_status, AttesterData, BeaconCommitteeSubscription, ProposerData, ValidatorDuty,
    SYNC_TOLERANCE,
};
use slashing_protection::test_utils::pubkey;
use slashing_protection::types::{Epoch, Hash256, PublicKey, SecretKey, Slot};

fn sample_attestation(slot: u64) -> Attestation {
    Attestation {
        data: AttestationData {
            slot: Slot::new(slot),
            index: 0,
            beacon_block_root: Hash256::from_low_u64_be(1),
            source: Checkpoint { epoch: Epoch::new(2), root: Hash256::from_low_u64_be(2) },
            target: Checkpoint { epoch: Epoch::new(3), root: Hash256::from_low_u64_be(3) },
        },
    }
}

fn sample_fork() -> Fork {
    Fork { previous_version: 1, current_version: 2, epoch: Epoch::new(2) }
}

#[test]
fn signed_aggregate_verifies_for_signer_only() {
    let chain_spec = ChainSpec::mainnet();
    let fork = sample_fork();
    let g = Hash256::from_low_u64_be(66);
    let sk = SecretKey(5);
    let signed = SignedAggregateAndProof::from_aggregate(
        7,
        sample_attestation(96),
        None,
        &sk,
        &fork,
        g,
        &chain_spec,
    );
    assert!(signed.is_valid_signature(&sk.public_key(), &fork, g, &chain_spec));
    assert!(signed.is_valid(&sk.public_key(), &fork, g, &chain_spec));
    // Any other key fails.
    assert!(!signed.is_valid_signature(&PublicKey(6), &fork, g, &chain_spec));
    assert!(!signed.is_valid(&PublicKey(6), &fork, g, &chain_spec));
    // A different chain identity fails too.
    assert!(!signed.is_valid_signature(&sk.public_key(), &fork, Hash256::from_low_u64_be(67), &chain_spec));
}

#[test]
fn supplied_selection_proof_is_kept() {
    let chain_spec = ChainSpec::mainnet();
    let fork = sample_fork();
    let g = Hash256::from_low_u64_be(66);
    let sk = SecretKey(5);
    let proof = SelectionProof::new(Slot::new(96), &sk, &fork, g, &chain_spec);
    let message = AggregateAndProof::from_aggregate(
        7,
        sample_attestation(96),
        Some(proof),
        &sk,
        &fork,
        g,
        &chain_spec,
    );
    assert_eq!(message.selection_proof, proof);
    assert_eq!(message.aggregator_index, 7);
    assert!(message.is_valid_selection_proof(&sk.public_key(), &fork, g, &chain_spec));
    assert!(!message.is_valid_selection_proof(&PublicKey(6), &fork, g, &chain_spec));
}

#[test]
fn selection_proof_covers_the_slot() {
    let chain_spec = ChainSpec::mainnet();
    let fork = sample_fork();
    let g = Hash256::from_low_u64_be(66);
    let sk = SecretKey(5);
    // A proof for one slot does not validate a message at another slot.
    let wrong_slot_proof = SelectionProof::new(Slot::new(97), &sk, &fork, g, &chain_spec);
    let message = AggregateAndProof::from_aggregate(
        7,
        sample_attestation(96),
        Some(wrong_slot_proof),
        &sk,
        &fork,
        g,
        &chain_spec,
    );
    assert!(!message.is_valid_selection_proof(&sk.public_key(), &fork, g, &chain_spec));
}

#[test]
fn domain_follows_the_fork_epoch() {
    let chain_spec = ChainSpec::mainnet();
    let fork = sample_fork();
    let g = Hash256::from_low_u64_be(66);
    // Slot 32 is epoch 1, before the fork epoch: previous version.
    let before = chain_spec.get_domain(Epoch::new(1), Domain::AggregateAndProof, &fork, g);
    assert_eq!(
        before,
        DomainValue { kind: Domain::AggregateAndProof, fork_version: 1, genesis_validators_root: g }
    );
    // Epoch 2 is at the fork epoch: current version.
    let after = chain_spec.get_domain(Epoch::new(2), Domain::AggregateAndProof, &fork, g);
    assert_eq!(
        after,
        DomainValue { kind: Domain::AggregateAndProof, fork_version: 2, genesis_validators_root: g }
    );
    assert_eq!(Slot::new(96).epoch(32), Epoch::new(3));
}

fn sample_attester(pk: PublicKey) -> AttesterData {
    AttesterData {
        pubkey: pk,
        validator_index: 11,
        committees_at_slot: 4,
        committee_index: 2,
        committee_length: 128,
        validator_committee_index: 36,
        slot: Slot::new(1000),
    }
}

#[test]
fn no_duties_has_all_fields_empty() {
    let d = ValidatorDuty::no_duties(pubkey(3));
    assert_eq!(d.validator_pubkey, pubkey(3));
    assert_eq!(d.validator_index, None);
    assert_eq!(d.attestation_slot, None);
    assert_eq!(d.attestation_committee_index, None);
    assert_eq!(d.attestation_committee_position, None);
    assert_eq!(d.committee_count_at_slot, None);
    assert_eq!(d.committee_length, None);
    assert_eq!(d.block_proposal_slots, None);
}

#[test]
fn duty_assembly_filters_proposals() {
    let pk = pubkey(3);
    let proposers = vec![
        ProposerData { pubkey: pubkey(1), validator_index: 1, slot: Slot::new(64) },
        ProposerData { pubkey: pk, validator_index: 11, slot: Slot::new(65) },
        ProposerData { pubkey: pubkey(2), validator_index: 2, slot: Slot::new(66) },
        ProposerData { pubkey: pk, validator_index: 11, slot: Slot::new(67) },
    ];
    let attester = sample_attester(pk);
    let d = ValidatorDuty::from_duty_responses(pk, Some(&attester), &proposers);
    assert_eq!(d.validator_index, Some(11));
    assert_eq!(d.attestation_slot, Some(Slot::new(1000)));
    assert_eq!(d.attestation_committee_index, Some(2));
    assert_eq!(d.attestation_committee_position, Some(36));
    assert_eq!(d.committee_count_at_slot, Some(4));
    assert_eq!(d.committee_length, Some(128));
    assert_eq!(d.block_proposal_slots, Some(vec![Slot::new(65), Slot::new(67)]));

    let none = ValidatorDuty::from_duty_responses(pk, None, &proposers);
    assert_eq!(none.block_proposal_slots, None);
}

#[test]
fn eq_ignoring_proposal_slots_ignores_only_proposals() {
    let pk = pubkey(3);
    let proposers_a = vec![ProposerData { pubkey: pk, validator_index: 11, slot: Slot::new(64) }];
    let proposers_b: Vec<ProposerData> = vec![];
    let attester = sample_attester(pk);
    let a = ValidatorDuty::from_duty_responses(pk, Some(&attester), &proposers_a);
    let b = ValidatorDuty::from_duty_responses(pk, Some(&attester), &proposers_b);
    assert!(a.eq_ignoring_proposal_slots(&b));
    let mut c = b.clone();
    c.validator_index = Some(12);
    assert!(!a.eq_ignoring_proposal_slots(&c));
    let no_duty = ValidatorDuty::no_duties(pk);
    assert!(!a.eq_ignoring_proposal_slots(&no_duty));
}

#[test]
fn subscription_requires_every_field() {
    let pk = pubkey(3);
    let attester = sample_attester(pk);
    let empty: Vec<ProposerData> = vec![];
    let d = ValidatorDuty::from_duty_responses(pk, Some(&attester), &empty);
    assert_eq!(
        d.subscription(true),
        Some(BeaconCommitteeSubscription {
            validator_index: 11,
            committee_index: 2,
            committees_at_slot: 4,
            slot: Slot::new(1000),
            is_aggregator: true,
        })
    );
    assert_eq!(ValidatorDuty::no_duties(pk).subscription(false), None);
}

#[test]
fn sync_status_tolerates_small_lag() {
    // A node that does not report syncing is usable.
    assert!(is_synced_status(false, 10_000));
    // A syncing node lagging under the tolerance is still usable.
    assert!(is_synced_status(true, 0));
    assert!(is_synced_status(true, SYNC_TOLERANCE - 1));
    // At or above the tolerance it is not.
    assert!(!is_synced_status(true, SYNC_TOLERANCE));
    assert!(!is_synced_status(true, SYNC_TOLERANCE + 100));
}
