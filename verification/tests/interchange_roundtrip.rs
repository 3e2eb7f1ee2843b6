use slashing_protection::interchange::{
    CompleteInterchangeData, ImportError, Interchange, InterchangeAttestation, InterchangeBlock,
    InterchangeData, InterchangeFormat, InterchangeMetadata, MinimalInterchangeData,
};
use slashing_protection::rules::{NotSafe, SlashingError};
use slashing_protection::test_utils::pubkey;
use slashing_protection::types::{Epoch, Hash256, Slot};
use slashing_protection::{SlashingDatabase, SUPPORTED_INTERCHANGE_FORMAT_VERSION};

fn metadata(format: InterchangeFormat, genesis_validators_root: Hash256) -> InterchangeMetadata {
    InterchangeMetadata {
        interchange_format: format,
        interchange_format_version: SUPPORTED_INTERCHANGE_FORMAT_VERSION,
        genesis_validators_root,
    }
}

fn populated_db() -> SlashingDatabase {
    let mut db = SlashingDatabase::create();
    db.register_validators(&vec![pubkey(0), pubkey(1)]);
    db.check_and_insert_block_signing_root(&pubkey(0), Slot::new(40), Hash256::from_low_u64_be(1))
        .unwrap();
    db.check_and_insert_attestation_signing_root(
        &pubkey(0),
        Epoch::new(1),
        Epoch::new(2),
        Hash256::from_low_u64_be(2),
    )
    .unwrap();
    db.check_and_insert_attestation_signing_root(
        &pubkey(0),
        Epoch::new(2),
        Epoch::new(5),
        Hash256::from_low_u64_be(3),
    )
    .unwrap();
    db.check_and_insert_attestation_signing_root(
        &pubkey(1),
        Epoch::new(0),
        Epoch::new(1),
        Hash256::from_low_u64_be(4),
    )
    .unwrap();
    db
}

#[test]
fn minimal_export_import_round_trip() {
    let g = Hash256::from_low_u64_be(66);
    let db = populated_db();
    let exported = db.export_minimal_interchange_info(g);

    let mut fresh = SlashingDatabase::create();
    fresh.import_interchange_info(&exported, g).unwrap();

    // The fresh database reproduces the source's bounds for every key.
    let re_exported = fresh.export_minimal_interchange_info(g);
    assert!(re_exported.equiv(&exported));
}

#[test]
fn import_scenario_raises_all_bounds() {
    let g = Hash256::from_low_u64_be(66);
    let mut db = SlashingDatabase::create();
    let p = pubkey(0);
    db.register_validators(&vec![p]);
    db.check_and_insert_block_signing_root(&p, Slot::new(126), Hash256::from_low_u64_be(1))
        .unwrap();
    db.check_and_insert_attestation_signing_root(
        &p,
        Epoch::new(2),
        Epoch::new(3),
        Hash256::from_low_u64_be(2),
    )
    .unwrap();

    let doc = Interchange {
        metadata: metadata(InterchangeFormat::Minimal, g),
        data: InterchangeData::Minimal(vec![MinimalInterchangeData {
            pubkey: p,
            last_signed_block_slot: Some(Slot::new(127)),
            last_signed_attestation_source_epoch: Some(Epoch::new(3)),
            last_signed_attestation_target_epoch: Some(Epoch::new(4)),
        }]),
    };
    db.import_interchange_info(&doc, g).unwrap();

    // The effective lower bound is now (slot=127, source=3, target=4).
    let exported = db.export_minimal_interchange_info(g);
    let expected = Interchange {
        metadata: metadata(InterchangeFormat::Minimal, g),
        data: InterchangeData::Minimal(vec![MinimalInterchangeData {
            pubkey: p,
            last_signed_block_slot: Some(Slot::new(127)),
            last_signed_attestation_source_epoch: Some(Epoch::new(3)),
            last_signed_attestation_target_epoch: Some(Epoch::new(4)),
        }]),
    };
    assert!(exported.equiv(&expected));

    // A block at or below slot 127 is denied.
    assert_eq!(
        db.check_and_insert_block_signing_root(&p, Slot::new(127), Hash256::from_low_u64_be(9)),
        Err(NotSafe::Slashable(SlashingError::DoubleProposal))
    );
    assert_eq!(
        db.check_and_insert_block_signing_root(&p, Slot::new(126), Hash256::from_low_u64_be(1)),
        Err(NotSafe::Slashable(SlashingError::DecreasingSlot))
    );
    // An attestation with target 4 not matching the recorded data is denied.
    assert_eq!(
        db.check_and_insert_attestation_signing_root(
            &p,
            Epoch::new(3),
            Epoch::new(4),
            Hash256::from_low_u64_be(9)
        ),
        Err(NotSafe::Slashable(SlashingError::DoubleVote))
    );
    // Higher bounds remain signable.
    assert_eq!(
        db.check_and_insert_block_signing_root(&p, Slot::new(128), Hash256::from_low_u64_be(9)),
        Ok(())
    );
    assert_eq!(
        db.check_and_insert_attestation_signing_root(
            &p,
            Epoch::new(4),
            Epoch::new(5),
            Hash256::from_low_u64_be(9)
        ),
        Ok(())
    );
}

#[test]
fn importing_own_export_is_a_no_op() {
    let g = Hash256::from_low_u64_be(66);
    let mut db = populated_db();
    let exported = db.export_minimal_interchange_info(g);
    // Importing a store's own export leaves every bound where it was.
    db.import_interchange_info(&exported, g).unwrap();
    let after = db.export_minimal_interchange_info(g);
    assert!(after.equiv(&exported));
}

#[test]
fn import_does_not_cross_contaminate() {
    let g = Hash256::from_low_u64_be(66);
    let mut db = populated_db();
    let before = db.export_minimal_interchange_info(g);

    // Import data for a new key only.
    let doc = Interchange {
        metadata: metadata(InterchangeFormat::Minimal, g),
        data: InterchangeData::Minimal(vec![MinimalInterchangeData {
            pubkey: pubkey(9),
            last_signed_block_slot: Some(Slot::new(1000)),
            last_signed_attestation_source_epoch: Some(Epoch::new(50)),
            last_signed_attestation_target_epoch: Some(Epoch::new(60)),
        }]),
    };
    db.import_interchange_info(&doc, g).unwrap();

    // The bounds recorded for the existing keys are unchanged.
    let after = db.export_minimal_interchange_info(g);
    let Interchange { data: InterchangeData::Minimal(before_data), .. } = before else {
        panic!("minimal export expected");
    };
    let Interchange { data: InterchangeData::Minimal(after_data), .. } = after else {
        panic!("minimal export expected");
    };
    assert_eq!(after_data.len(), before_data.len() + 1);
    for rec in &before_data {
        assert!(after_data.contains(rec));
    }
}

#[test]
fn genesis_mismatch_rejected() {
    let g = Hash256::from_low_u64_be(66);
    let other_g = Hash256::from_low_u64_be(67);
    let mut db = populated_db();
    let before = db.export_minimal_interchange_info(g);

    let doc = Interchange {
        metadata: metadata(InterchangeFormat::Minimal, other_g),
        data: InterchangeData::Minimal(vec![MinimalInterchangeData {
            pubkey: pubkey(0),
            last_signed_block_slot: Some(Slot::new(1_000_000)),
            last_signed_attestation_source_epoch: None,
            last_signed_attestation_target_epoch: None,
        }]),
    };
    assert_eq!(db.import_interchange_info(&doc, g), Err(ImportError::GenesisMismatch));

    // The store is unchanged.
    let after = db.export_minimal_interchange_info(g);
    assert!(after.equiv(&before));
}

#[test]
fn unsupported_version_rejected() {
    let g = Hash256::from_low_u64_be(66);
    let mut db = populated_db();
    let before = db.export_minimal_interchange_info(g);

    let doc = Interchange {
        metadata: InterchangeMetadata {
            interchange_format: InterchangeFormat::Minimal,
            interchange_format_version: SUPPORTED_INTERCHANGE_FORMAT_VERSION + 1,
            genesis_validators_root: g,
        },
        data: InterchangeData::Minimal(vec![]),
    };
    assert_eq!(db.import_interchange_info(&doc, g), Err(ImportError::UnsupportedVersion));
    let after = db.export_minimal_interchange_info(g);
    assert!(after.equiv(&before));
}

#[test]
fn malformed_document_rejected() {
    let g = Hash256::from_low_u64_be(66);
    let mut db = populated_db();
    let before = db.export_minimal_interchange_info(g);

    // An entry with a source bound above its target bound is malformed.
    let bad_bounds = Interchange {
        metadata: metadata(InterchangeFormat::Minimal, g),
        data: InterchangeData::Minimal(vec![MinimalInterchangeData {
            pubkey: pubkey(0),
            last_signed_block_slot: None,
            last_signed_attestation_source_epoch: Some(Epoch::new(9)),
            last_signed_attestation_target_epoch: Some(Epoch::new(3)),
        }]),
    };
    assert_eq!(db.import_interchange_info(&bad_bounds, g), Err(ImportError::MalformedDocument));

    // An entry with only one attestation bound is malformed.
    let half_bounds = Interchange {
        metadata: metadata(InterchangeFormat::Minimal, g),
        data: InterchangeData::Minimal(vec![MinimalInterchangeData {
            pubkey: pubkey(0),
            last_signed_block_slot: None,
            last_signed_attestation_source_epoch: Some(Epoch::new(2)),
            last_signed_attestation_target_epoch: None,
        }]),
    };
    assert_eq!(db.import_interchange_info(&half_bounds, g), Err(ImportError::MalformedDocument));

    // A data section contradicting the declared format is malformed.
    let mismatched = Interchange {
        metadata: metadata(InterchangeFormat::Complete, g),
        data: InterchangeData::Minimal(vec![]),
    };
    assert_eq!(db.import_interchange_info(&mismatched, g), Err(ImportError::MalformedDocument));

    let after = db.export_minimal_interchange_info(g);
    assert!(after.equiv(&before));
}

#[test]
fn complete_export_and_import() {
    let g = Hash256::from_low_u64_be(66);
    let db = populated_db();
    let exported = db.export_complete_interchange_info(g);

    // A complete import into an empty store reproduces the full history.
    let mut fresh = SlashingDatabase::create();
    fresh.import_interchange_info(&exported, g).unwrap();
    let re_exported = fresh.export_complete_interchange_info(g);
    assert!(re_exported.equiv(&exported));

    // After the import, the same slashing protections hold.
    assert_eq!(
        fresh.check_and_insert_block_signing_root(&pubkey(0), Slot::new(39), Hash256::from_low_u64_be(9)),
        Err(NotSafe::Slashable(SlashingError::DecreasingSlot))
    );
    assert_eq!(
        fresh.check_and_insert_attestation_signing_root(
            &pubkey(0),
            Epoch::new(3),
            Epoch::new(4),
            Hash256::from_low_u64_be(9)
        ),
        Err(NotSafe::Slashable(SlashingError::SurroundingVote))
    );
    // An exact replay of an attestation survives the complete round trip.
    assert_eq!(
        fresh.check_and_insert_attestation_signing_root(
            &pubkey(0),
            Epoch::new(2),
            Epoch::new(5),
            Hash256::from_low_u64_be(3)
        ),
        Ok(())
    );
}

#[test]
fn complete_import_merges_histories() {
    let g = Hash256::from_low_u64_be(66);
    let mut db = SlashingDatabase::create();
    db.register_validators(&vec![pubkey(0)]);
    db.check_and_insert_block_signing_root(&pubkey(0), Slot::new(10), Hash256::from_low_u64_be(1))
        .unwrap();
    db.check_and_insert_attestation_signing_root(
        &pubkey(0),
        Epoch::new(0),
        Epoch::new(1),
        Hash256::from_low_u64_be(2),
    )
    .unwrap();

    let doc = Interchange {
        metadata: metadata(InterchangeFormat::Complete, g),
        data: InterchangeData::Complete(vec![CompleteInterchangeData {
            pubkey: pubkey(0),
            signed_blocks: vec![InterchangeBlock {
                slot: Slot::new(12),
                signing_root: Some(Hash256::from_low_u64_be(3)),
            }],
            signed_attestations: vec![
                // Already recorded: kept once.
                InterchangeAttestation {
                    source_epoch: Epoch::new(0),
                    target_epoch: Epoch::new(1),
                    signing_root: Some(Hash256::from_low_u64_be(2)),
                },
                InterchangeAttestation {
                    source_epoch: Epoch::new(1),
                    target_epoch: Epoch::new(2),
                    signing_root: Some(Hash256::from_low_u64_be(4)),
                },
            ],
        }]),
    };
    db.import_interchange_info(&doc, g).unwrap();

    let exported = db.export_minimal_interchange_info(g);
    let expected = Interchange {
        metadata: metadata(InterchangeFormat::Minimal, g),
        data: InterchangeData::Minimal(vec![MinimalInterchangeData {
            pubkey: pubkey(0),
            last_signed_block_slot: Some(Slot::new(12)),
            last_signed_attestation_source_epoch: Some(Epoch::new(1)),
            last_signed_attestation_target_epoch: Some(Epoch::new(2)),
        }]),
    };
    assert!(exported.equiv(&expected));
}

#[test]
fn equiv_ignores_order_and_catches_differences() {
    let g = Hash256::from_low_u64_be(66);
    let rec = |i: u64, slot: u64| MinimalInterchangeData {
        pubkey: pubkey(i),
        last_signed_block_slot: Some(Slot::new(slot)),
        last_signed_attestation_source_epoch: None,
        last_signed_attestation_target_epoch: None,
    };
    let a = Interchange {
        metadata: metadata(InterchangeFormat::Minimal, g),
        data: InterchangeData::Minimal(vec![rec(0, 1), rec(1, 2)]),
    };
    let b = Interchange {
        metadata: metadata(InterchangeFormat::Minimal, g),
        data: InterchangeData::Minimal(vec![rec(1, 2), rec(0, 1)]),
    };
    let c = Interchange {
        metadata: metadata(InterchangeFormat::Minimal, g),
        data: InterchangeData::Minimal(vec![rec(0, 1), rec(1, 3)]),
    };
    assert!(a.equiv(&b));
    assert!(b.equiv(&a));
    assert!(!a.equiv(&c));
    let d = Interchange {
        metadata: metadata(InterchangeFormat::Minimal, Hash256::from_low_u64_be(67)),
        data: InterchangeData::Minimal(vec![rec(0, 1), rec(1, 2)]),
    };
    assert!(!a.equiv(&d));
}
