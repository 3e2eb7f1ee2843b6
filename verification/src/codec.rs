//! Export and import of interchange documents, and the merge engine.
//!
//! Exporting emits one record per registered key: the three monotonic
//! bounds for a minimal document, the full history for a complete one.
//! Importing is all-or-nothing: a document from another chain, of a newer
//! version than supported, or with a malformed entry is refused and the
//! store is left unchanged. An accepted import merges each key's data as a
//! monotone join — a bound already stored is never lowered, a history
//! record already stored is never discarded.

use vstd::prelude::*;

use crate::interchange::{
    CompleteInterchangeData, ImportError, Interchange, InterchangeAttestation, InterchangeBlock,
    InterchangeData, InterchangeFormat, InterchangeMetadata, MinimalInterchangeData,
};
use crate::store::{
    contains_key_seq, empty_history, entry_of_seq, entry_wf, history_of, lemma_bounds_ordered, lemma_max_source_bound, lemma_max_target_bound,
    lemma_unique_index, lemma_view_update, max_source, max_source_of, max_target, max_target_of,
    unique_keys, view_of,
    AttestationSigningRecord, BlockSigningRecord, SlashingDatabase, ValidatorEntry, ValidatorHistory,
};
use crate::types::{Epoch, Hash256, PublicKey};
use crate::SUPPORTED_INTERCHANGE_FORMAT_VERSION;

verus! {

/// The minimal-document record of one stored entry: the key and its three
/// monotonic bounds.
pub open spec fn minimal_data_of(e: ValidatorEntry) -> MinimalInterchangeData {
    MinimalInterchangeData {
        pubkey: e.pubkey,
        last_signed_block_slot: match e.block {
            Option::Some(r) => Option::Some(r.slot),
            Option::None => Option::None,
        },
        last_signed_attestation_source_epoch: match max_source_of(e.attestations@) {
            Option::Some(m) => Option::Some(Epoch(m)),
            Option::None => Option::None,
        },
        last_signed_attestation_target_epoch: match max_target_of(e.attestations@) {
            Option::Some(m) => Option::Some(Epoch(m)),
            Option::None => Option::None,
        },
    }
}

/// The complete-document form of a stored block record.
pub open spec fn export_block_of(r: BlockSigningRecord) -> InterchangeBlock {
    InterchangeBlock { slot: r.slot, signing_root: r.signing_root }
}

/// The complete-document form of a stored attestation record.
pub open spec fn export_attestation_of(a: AttestationSigningRecord) -> InterchangeAttestation {
    InterchangeAttestation {
        source_epoch: a.source,
        target_epoch: a.target,
        signing_root: a.signing_root,
    }
}

/// The signed-blocks sequence of one entry in a complete document.
pub open spec fn complete_blocks_of(e: ValidatorEntry) -> Seq<InterchangeBlock> {
    match e.block {
        Option::Some(r) => seq![export_block_of(r)],
        Option::None => Seq::empty(),
    }
}

/// The signed-attestations sequence of one entry in a complete document.
pub open spec fn complete_attestations_of(e: ValidatorEntry) -> Seq<InterchangeAttestation> {
    Seq::new(e.attestations@.len(), |k: int| export_attestation_of(e.attestations@[k]))
}

/// The larger of two optional bounds, `None` counting as absent.
pub open spec fn opt_max_u64(a: Option<u64>, b: Option<u64>) -> Option<u64> {
    match (a, b) {
        (Option::None, Option::None) => Option::None,
        (Option::Some(x), Option::None) => Option::Some(x),
        (Option::None, Option::Some(y)) => Option::Some(y),
        (Option::Some(x), Option::Some(y)) => Option::Some(
            if x > y {
                x
            } else {
                y
            },
        ),
    }
}

/// The epoch number under an optional epoch.
pub open spec fn epoch_bound(x: Option<Epoch>) -> Option<u64> {
    match x {
        Option::Some(e) => Option::Some(e.0),
        Option::None => Option::None,
    }
}

/// A minimal record is well-formed when its attestation bounds are both
/// present with `source <= target`, or both absent.
pub open spec fn minimal_data_valid(d: MinimalInterchangeData) -> bool {
    match (d.last_signed_attestation_source_epoch, d.last_signed_attestation_target_epoch) {
        (Option::None, Option::None) => true,
        (Option::Some(s), Option::Some(t)) => s.0 <= t.0,
        _ => false,
    }
}

/// A complete record is well-formed when every attestation in it has
/// `source <= target`.
pub open spec fn complete_data_valid(d: CompleteInterchangeData) -> bool {
    forall|k: int| 0 <= k < d.signed_attestations@.len()
        ==> #[trigger] d.signed_attestations@[k].source_epoch.0
        <= d.signed_attestations@[k].target_epoch.0
}

/// Merge a minimal record into one key's history: each bound is raised to
/// the imported value where that is higher and kept otherwise; raised
/// attestation bounds are recorded as one vote with an unknown signing
/// root.
pub open spec fn merge_minimal_history(h: ValidatorHistory, d: MinimalInterchangeData) -> ValidatorHistory {
    let nb = match (h.block, d.last_signed_block_slot) {
        (Option::None, Option::None) => Option::None,
        (Option::Some(r), Option::None) => Option::Some(r),
        (Option::None, Option::Some(s)) => Option::Some(
            BlockSigningRecord { slot: s, signing_root: Option::None },
        ),
        (Option::Some(r), Option::Some(s)) => if s.0 > r.slot.0 {
            Option::Some(BlockSigningRecord { slot: s, signing_root: Option::None })
        } else {
            Option::Some(r)
        },
    };
    let es = max_source_of(h.attestations);
    let et = max_target_of(h.attestations);
    let ns = opt_max_u64(es, epoch_bound(d.last_signed_attestation_source_epoch));
    let nt = opt_max_u64(et, epoch_bound(d.last_signed_attestation_target_epoch));
    let na = if ns == es && nt == et {
        h.attestations
    } else {
        h.attestations.push(
            AttestationSigningRecord {
                source: Epoch(ns->Some_0),
                target: Epoch(nt->Some_0),
                signing_root: Option::None,
            },
        )
    };
    ValidatorHistory { block: nb, attestations: na }
}

/// The stored record of an imported attestation.
pub open spec fn att_record_of(a: InterchangeAttestation) -> AttestationSigningRecord {
    AttestationSigningRecord { source: a.source_epoch, target: a.target_epoch, signing_root: a.signing_root }
}

/// Merge one imported block record into the block bound: the higher slot
/// wins, the stored record surviving a tie.
pub open spec fn merge_block_one(b: Option<BlockSigningRecord>, nb: InterchangeBlock) -> Option<
    BlockSigningRecord,
> {
    match b {
        Option::None => Option::Some(BlockSigningRecord { slot: nb.slot, signing_root: nb.signing_root }),
        Option::Some(r) => if nb.slot.0 > r.slot.0 {
            Option::Some(BlockSigningRecord { slot: nb.slot, signing_root: nb.signing_root })
        } else {
            Option::Some(r)
        },
    }
}

/// Merge a sequence of imported block records, in order.
pub open spec fn merge_blocks(b: Option<BlockSigningRecord>, blocks: Seq<InterchangeBlock>) -> Option<
    BlockSigningRecord,
>
    decreases blocks.len(),
{
    if blocks.len() == 0 {
        b
    } else {
        merge_blocks(merge_block_one(b, blocks[0]), blocks.drop_first())
    }
}

/// Merge a sequence of imported attestations into the history, in order:
/// a record already stored is skipped, a new one is appended.
pub open spec fn merge_attestations(
    hist: Seq<AttestationSigningRecord>,
    atts: Seq<InterchangeAttestation>,
) -> Seq<AttestationSigningRecord>
    decreases atts.len(),
{
    if atts.len() == 0 {
        hist
    } else {
        let h1 = if hist.contains(att_record_of(atts[0])) {
            hist
        } else {
            hist.push(att_record_of(atts[0]))
        };
        merge_attestations(h1, atts.drop_first())
    }
}

/// Merge a complete record into one key's history.
pub open spec fn merge_complete_history(
    h: ValidatorHistory,
    blocks: Seq<InterchangeBlock>,
    atts: Seq<InterchangeAttestation>,
) -> ValidatorHistory {
    ValidatorHistory {
        block: merge_blocks(h.block, blocks),
        attestations: merge_attestations(h.attestations, atts),
    }
}

/// The store model after a minimal import: each record is merged into its
/// key's history, a fresh key starting from the empty history.
pub open spec fn import_minimal_model(
    m: Map<PublicKey, ValidatorHistory>,
    data: Seq<MinimalInterchangeData>,
) -> Map<PublicKey, ValidatorHistory>
    decreases data.len(),
{
    if data.len() == 0 {
        m
    } else {
        let d = data[0];
        let h = if m.dom().contains(d.pubkey) {
            m[d.pubkey]
        } else {
            empty_history()
        };
        import_minimal_model(m.insert(d.pubkey, merge_minimal_history(h, d)), data.drop_first())
    }
}

/// The store model after a complete import.
pub open spec fn import_complete_model(
    m: Map<PublicKey, ValidatorHistory>,
    data: Seq<CompleteInterchangeData>,
) -> Map<PublicKey, ValidatorHistory>
    decreases data.len(),
{
    if data.len() == 0 {
        m
    } else {
        let d = data[0];
        let h = if m.dom().contains(d.pubkey) {
            m[d.pubkey]
        } else {
            empty_history()
        };
        import_complete_model(
            m.insert(d.pubkey, merge_complete_history(h, d.signed_blocks@, d.signed_attestations@)),
            data.drop_first(),
        )
    }
}

/// The data section matches the declared format and every record in it is
/// well-formed.
pub open spec fn document_valid(doc: Interchange) -> bool {
    match (doc.metadata.interchange_format, doc.data) {
        (InterchangeFormat::Minimal, InterchangeData::Minimal(d)) => forall|i: int|
            0 <= i < d@.len() ==> minimal_data_valid(#[trigger] d@[i]),
        (InterchangeFormat::Complete, InterchangeData::Complete(d)) => forall|i: int|
            0 <= i < d@.len() ==> complete_data_valid(#[trigger] d@[i]),
        _ => false,
    }
}

/// Why an import is refused, `None` when it is accepted: a document from
/// another chain first, then an unsupported version, then a malformed data
/// section.
pub open spec fn import_error_of(doc: Interchange, local_genesis_validators_root: Hash256) -> Option<
    ImportError,
> {
    if doc.metadata.genesis_validators_root != local_genesis_validators_root {
        Option::Some(ImportError::GenesisMismatch)
    } else if doc.metadata.interchange_format_version > SUPPORTED_INTERCHANGE_FORMAT_VERSION {
        Option::Some(ImportError::UnsupportedVersion)
    } else if !document_valid(doc) {
        Option::Some(ImportError::MalformedDocument)
    } else {
        Option::None
    }
}


/// The highest signed block slot recorded in a history, if any.
pub open spec fn block_bound(h: ValidatorHistory) -> Option<u64> {
    match h.block {
        Option::Some(r) => Option::Some(r.slot.0),
        Option::None => Option::None,
    }
}

/// The highest attestation source epoch recorded in a history, if any.
pub open spec fn source_bound(h: ValidatorHistory) -> Option<u64> {
    max_source_of(h.attestations)
}

/// The highest attestation target epoch recorded in a history, if any.
pub open spec fn target_bound(h: ValidatorHistory) -> Option<u64> {
    max_target_of(h.attestations)
}

/// Two histories give the same protection bounds.
pub open spec fn bounds_match(h: ValidatorHistory, g: ValidatorHistory) -> bool {
    &&& block_bound(h) == block_bound(g)
    &&& source_bound(h) == source_bound(g)
    &&& target_bound(h) == target_bound(g)
}


/// `a` is at most `b`, an absent bound below every present one.
pub open spec fn opt_bound_le(a: Option<u64>, b: Option<u64>) -> bool {
    match (a, b) {
        (Option::None, _) => true,
        (Option::Some(_), Option::None) => false,
        (Option::Some(x), Option::Some(y)) => x <= y,
    }
}

/// Appending a record moves both attestation bounds up to at least the
/// record's epochs and no further down.
proof fn lemma_push_raises_bounds(hist: Seq<AttestationSigningRecord>, rec: AttestationSigningRecord)
    ensures
        max_source_of(hist.push(rec)) == opt_max_u64(max_source_of(hist), Option::Some(rec.source.0)),
        max_target_of(hist.push(rec)) == opt_max_u64(max_target_of(hist), Option::Some(rec.target.0)),
{
    assert(hist.push(rec).drop_last() =~= hist);
    assert(hist.push(rec).last() == rec);
}

/// Law: a minimal merge never lowers a bound — each of the three bounds
/// after the merge is at least the bound before it.
pub proof fn lemma_minimal_merge_never_lowers_bounds(h: ValidatorHistory, d: MinimalInterchangeData)
    ensures
        opt_bound_le(block_bound(h), block_bound(merge_minimal_history(h, d))),
        opt_bound_le(source_bound(h), source_bound(merge_minimal_history(h, d))),
        opt_bound_le(target_bound(h), target_bound(merge_minimal_history(h, d))),
{
    let hm = merge_minimal_history(h, d);
    let es = max_source_of(h.attestations);
    let et = max_target_of(h.attestations);
    let ns = opt_max_u64(es, epoch_bound(d.last_signed_attestation_source_epoch));
    let nt = opt_max_u64(et, epoch_bound(d.last_signed_attestation_target_epoch));
    if !(ns == es && nt == et) {
        let rec = AttestationSigningRecord {
            source: Epoch(ns->Some_0),
            target: Epoch(nt->Some_0),
            signing_root: Option::None,
        };
        lemma_push_raises_bounds(h.attestations, rec);
    }
}

/// Law: a complete merge never lowers a bound either: it only ever adds
/// history records and keeps the higher block slot.
pub proof fn lemma_complete_merge_never_lowers_bounds(
    h: ValidatorHistory,
    blocks: Seq<InterchangeBlock>,
    atts: Seq<InterchangeAttestation>,
)
    ensures
        opt_bound_le(block_bound(h), block_bound(merge_complete_history(h, blocks, atts))),
        opt_bound_le(source_bound(h), source_bound(merge_complete_history(h, blocks, atts))),
        opt_bound_le(target_bound(h), target_bound(merge_complete_history(h, blocks, atts))),
    decreases blocks.len() + atts.len(),
{
    if blocks.len() > 0 {
        let h1 = ValidatorHistory { block: merge_block_one(h.block, blocks[0]), ..h };
        lemma_complete_merge_never_lowers_bounds(h1, blocks.drop_first(), atts);
        assert(merge_complete_history(h, blocks, atts) == merge_complete_history(
            h1,
            blocks.drop_first(),
            atts,
        ));
    } else if atts.len() > 0 {
        let rec = att_record_of(atts[0]);
        let na = if h.attestations.contains(rec) {
            h.attestations
        } else {
            h.attestations.push(rec)
        };
        let h1 = ValidatorHistory { attestations: na, ..h };
        if !h.attestations.contains(rec) {
            lemma_push_raises_bounds(h.attestations, rec);
        }
        lemma_complete_merge_never_lowers_bounds(h1, blocks, atts.drop_first());
        assert(merge_complete_history(h, blocks, atts) == merge_complete_history(
            h1,
            blocks,
            atts.drop_first(),
        ));
    }
}

/// Law: a minimal import never touches a key that the document does not
/// mention — merging data for other keys cannot alter this key's record.
pub proof fn lemma_minimal_import_untouched_key(
    m: Map<PublicKey, ValidatorHistory>,
    data: Seq<MinimalInterchangeData>,
    q: PublicKey,
)
    requires
        forall|i: int| 0 <= i < data.len() ==> (#[trigger] data[i]).pubkey != q,
    ensures
        import_minimal_model(m, data).dom().contains(q) == m.dom().contains(q),
        m.dom().contains(q) ==> import_minimal_model(m, data)[q] == m[q],
    decreases data.len(),
{
    if data.len() > 0 {
        let d = data[0];
        let h = if m.dom().contains(d.pubkey) {
            m[d.pubkey]
        } else {
            empty_history()
        };
        let m1 = m.insert(d.pubkey, merge_minimal_history(h, d));
        let rest = data.drop_first();
        assert(forall|i: int| 0 <= i < rest.len() ==> (#[trigger] rest[i]).pubkey != q) by {
            assert(forall|i: int| 0 <= i < rest.len() ==> rest[i] == data[i + 1]);
        }
        lemma_minimal_import_untouched_key(m1, rest, q);
    }
}

/// Law: a complete import never touches a key that the document does not
/// mention.
pub proof fn lemma_complete_import_untouched_key(
    m: Map<PublicKey, ValidatorHistory>,
    data: Seq<CompleteInterchangeData>,
    q: PublicKey,
)
    requires
        forall|i: int| 0 <= i < data.len() ==> (#[trigger] data[i]).pubkey != q,
    ensures
        import_complete_model(m, data).dom().contains(q) == m.dom().contains(q),
        m.dom().contains(q) ==> import_complete_model(m, data)[q] == m[q],
    decreases data.len(),
{
    if data.len() > 0 {
        let d = data[0];
        let h = if m.dom().contains(d.pubkey) {
            m[d.pubkey]
        } else {
            empty_history()
        };
        let m1 = m.insert(d.pubkey, merge_complete_history(h, d.signed_blocks@, d.signed_attestations@));
        let rest = data.drop_first();
        assert(forall|i: int| 0 <= i < rest.len() ==> (#[trigger] rest[i]).pubkey != q) by {
            assert(forall|i: int| 0 <= i < rest.len() ==> rest[i] == data[i + 1]);
        }
        lemma_complete_import_untouched_key(m1, rest, q);
    }
}

/// A minimal import of records for keys absent from the store only
/// appends: present keys keep their history, and each imported key ends
/// with its record merged into an empty history.
pub proof fn lemma_minimal_import_fresh(
    m: Map<PublicKey, ValidatorHistory>,
    data: Seq<MinimalInterchangeData>,
)
    requires
        forall|i: int, j: int| 0 <= i < j < data.len() ==> data[i].pubkey != data[j].pubkey,
        forall|i: int| 0 <= i < data.len() ==> !m.dom().contains((#[trigger] data[i]).pubkey),
    ensures
        forall|q: PublicKey| #[trigger] m.dom().contains(q) ==> import_minimal_model(
            m,
            data,
        ).dom().contains(q) && import_minimal_model(m, data)[q] == m[q],
        forall|i: int| 0 <= i < data.len() ==> import_minimal_model(m, data).dom().contains(
            (#[trigger] data[i]).pubkey,
        ) && import_minimal_model(m, data)[data[i].pubkey] == merge_minimal_history(
            empty_history(),
            data[i],
        ),
        forall|q: PublicKey| #[trigger] import_minimal_model(m, data).dom().contains(q)
            ==> m.dom().contains(q) || exists|i: int|
            0 <= i < data.len() && (#[trigger] data[i]).pubkey == q,
    decreases data.len(),
{
    if data.len() > 0 {
        let d = data[0];
        let m1 = m.insert(d.pubkey, merge_minimal_history(empty_history(), d));
        let rest = data.drop_first();
        assert(forall|i: int| 0 <= i < rest.len() ==> rest[i] == data[i + 1]);
        assert(forall|i: int, j: int| 0 <= i < j < rest.len() ==> rest[i].pubkey != rest[j].pubkey);
        assert(forall|i: int| 0 <= i < rest.len() ==> !m1.dom().contains(
            (#[trigger] rest[i]).pubkey,
        ));
        lemma_minimal_import_fresh(m1, rest);
        assert(import_minimal_model(m, data) == import_minimal_model(m1, rest));
        assert forall|q: PublicKey| #[trigger] m.dom().contains(q) implies import_minimal_model(
            m,
            data,
        ).dom().contains(q) && import_minimal_model(m, data)[q] == m[q] by {
            assert(!m.dom().contains(data[0].pubkey));
            assert(q != d.pubkey);
            assert(m1.dom().contains(q));
            assert(m1[q] == m[q]);
        }
        assert forall|i: int| 0 <= i < data.len() implies import_minimal_model(m, data).dom().contains(
            (#[trigger] data[i]).pubkey,
        ) && import_minimal_model(m, data)[data[i].pubkey] == merge_minimal_history(
            empty_history(),
            data[i],
        ) by {
            if i == 0 {
                assert(m1.dom().contains(d.pubkey));
            } else {
                assert(rest[i - 1] == data[i]);
            }
        }
        assert forall|q: PublicKey| #[trigger] import_minimal_model(m, data).dom().contains(q)
            implies m.dom().contains(q) || exists|i: int|
            0 <= i < data.len() && (#[trigger] data[i]).pubkey == q by {
            if !m.dom().contains(q) {
                if m1.dom().contains(q) {
                    assert(data[0].pubkey == q);
                } else {
                    let w = choose|i: int| 0 <= i < rest.len() && (#[trigger] rest[i]).pubkey == q;
                    assert(data[w + 1].pubkey == q);
                }
            }
        }
    }
}

/// The bounds of an exported record merged into an empty history equal the
/// bounds of the entry it was exported from.
pub proof fn lemma_fresh_merge_bounds(e: ValidatorEntry)
    requires
        entry_wf(e),
    ensures
        bounds_match(
            merge_minimal_history(empty_history(), minimal_data_of(e)),
            history_of(e),
        ),
{
    let d = minimal_data_of(e);
    let h = merge_minimal_history(empty_history(), d);
    lemma_max_source_bound(e.attestations@);
    lemma_max_target_bound(e.attestations@);
    assert(max_source_of(Seq::<AttestationSigningRecord>::empty()) is None);
    assert(max_target_of(Seq::<AttestationSigningRecord>::empty()) is None);
    match (max_source_of(e.attestations@), max_target_of(e.attestations@)) {
        (Option::Some(ms), Option::Some(mt)) => {
            let rec = AttestationSigningRecord {
                source: Epoch(ms),
                target: Epoch(mt),
                signing_root: Option::None,
            };
            let na = Seq::<AttestationSigningRecord>::empty().push(rec);
            assert(h.attestations =~= na);
            assert(na.drop_last() =~= Seq::<AttestationSigningRecord>::empty());
            assert(na.last() == rec);
            assert(max_source_of(na) == Option::Some(ms));
            assert(max_target_of(na) == Option::Some(mt));
        },
        (Option::None, Option::None) => {
            assert(h.attestations =~= Seq::<AttestationSigningRecord>::empty());
        },
        _ => {
            assert(false);
        },
    }
}

/// A minimal record exported from a well-formed entry is well-formed, so a
/// well-formed store's export is always accepted back by the import.
pub proof fn lemma_export_record_valid(e: ValidatorEntry)
    requires
        entry_wf(e),
    ensures
        minimal_data_valid(minimal_data_of(e)),
{
    lemma_max_source_bound(e.attestations@);
    lemma_max_target_bound(e.attestations@);
    lemma_bounds_ordered(e.attestations@);
}

/// Law: importing a minimal export into an empty store reproduces the
/// source store's keys and protection bounds exactly.
pub proof fn lemma_export_import_round_trip(s: Seq<ValidatorEntry>, data: Seq<MinimalInterchangeData>)
    requires
        unique_keys(s),
        forall|i: int| 0 <= i < s.len() ==> entry_wf(#[trigger] s[i]),
        data.len() == s.len(),
        forall|i: int| 0 <= i < data.len() ==> #[trigger] data[i] == minimal_data_of(s[i]),
    ensures
        forall|q: PublicKey| #[trigger] import_minimal_model(
            Map::<PublicKey, ValidatorHistory>::empty(),
            data,
        ).dom().contains(q) <==> contains_key_seq(s, q),
        forall|q: PublicKey| #[trigger] contains_key_seq(s, q) ==> bounds_match(
            import_minimal_model(Map::<PublicKey, ValidatorHistory>::empty(), data)[q],
            history_of(entry_of_seq(s, q)),
        ),
{
    let m0 = Map::<PublicKey, ValidatorHistory>::empty();
    let m = import_minimal_model(m0, data);
    assert(forall|i: int| 0 <= i < data.len() ==> (#[trigger] data[i]).pubkey == s[i].pubkey);
    assert forall|i: int, j: int| 0 <= i < j < data.len() implies data[i].pubkey != data[j].pubkey by {
        assert(s[i].pubkey != s[j].pubkey);
    }
    lemma_minimal_import_fresh(m0, data);
    assert forall|q: PublicKey| #[trigger] m.dom().contains(q) implies contains_key_seq(s, q) by {
        let w = choose|i: int| 0 <= i < data.len() && (#[trigger] data[i]).pubkey == q;
        assert(s[w].pubkey == q);
    }
    assert forall|q: PublicKey| #[trigger] contains_key_seq(s, q) implies m.dom().contains(q)
        && bounds_match(m[q], history_of(entry_of_seq(s, q))) by {
        let w = choose|i: int| 0 <= i < s.len() && (#[trigger] s[i]).pubkey == q;
        lemma_unique_index(s, w, q);
        assert(data[w].pubkey == q);
        assert(m[q] == merge_minimal_history(empty_history(), minimal_data_of(s[w])));
        lemma_fresh_merge_bounds(s[w]);
    }
}

/// The larger of two optional bounds, computed.
fn opt_max(a: Option<u64>, b: Option<u64>) -> (r: Option<u64>)
    ensures
        r == opt_max_u64(a, b),
{
    match (a, b) {
        (Option::None, Option::None) => Option::None,
        (Option::Some(x), Option::None) => Option::Some(x),
        (Option::None, Option::Some(y)) => Option::Some(y),
        (Option::Some(x), Option::Some(y)) => Option::Some(
            if x > y {
                x
            } else {
                y
            },
        ),
    }
}

/// Whether two optional bounds are equal, computed.
fn opt_u64_eq(a: Option<u64>, b: Option<u64>) -> (r: bool)
    ensures
        r == (a == b),
{
    match (a, b) {
        (Option::None, Option::None) => true,
        (Option::Some(x), Option::Some(y)) => x == y,
        _ => false,
    }
}

impl SlashingDatabase {
    /// Export a minimal interchange document: for every registered key, in
    /// store order, the key and its three bounds.
    pub fn export_minimal_interchange_info(&self, genesis_validators_root: Hash256) -> (r: Interchange)
        ensures
            r.metadata == (InterchangeMetadata {
                interchange_format: InterchangeFormat::Minimal,
                interchange_format_version: SUPPORTED_INTERCHANGE_FORMAT_VERSION,
                genesis_validators_root,
            }),
            r.data matches InterchangeData::Minimal(d) && d@.len() == self.entries@.len() && (forall|
                i: int,
            |
                0 <= i < d@.len() ==> d@[i] == minimal_data_of(#[trigger] self.entries@[i])),
    {
        let mut data: Vec<MinimalInterchangeData> = Vec::new();
        let mut i: usize = 0;
        while i < self.entries.len()
            invariant
                0 <= i <= self.entries@.len(),
                data@.len() == i,
                forall|k: int| 0 <= k < i ==> data@[k] == minimal_data_of(#[trigger] self.entries@[k]),
            decreases self.entries@.len() - i,
        {
            let e = &self.entries[i];
            let ms = max_source(&e.attestations);
            let mt = max_target(&e.attestations);
            let rec = MinimalInterchangeData {
                pubkey: e.pubkey,
                last_signed_block_slot: match &e.block {
                    Option::Some(r) => Option::Some(r.slot),
                    Option::None => Option::None,
                },
                last_signed_attestation_source_epoch: match ms {
                    Option::Some(m) => Option::Some(Epoch::new(m)),
                    Option::None => Option::None,
                },
                last_signed_attestation_target_epoch: match mt {
                    Option::Some(m) => Option::Some(Epoch::new(m)),
                    Option::None => Option::None,
                },
            };
            data.push(rec);
            i = i + 1;
        }
        Interchange {
            metadata: InterchangeMetadata {
                interchange_format: InterchangeFormat::Minimal,
                interchange_format_version: SUPPORTED_INTERCHANGE_FORMAT_VERSION,
                genesis_validators_root,
            },
            data: InterchangeData::Minimal(data),
        }
    }

    /// Export a complete interchange document: for every registered key, in
    /// store order, the key and its full recorded history.
    pub fn export_complete_interchange_info(&self, genesis_validators_root: Hash256) -> (r: Interchange)
        ensures
            r.metadata == (InterchangeMetadata {
                interchange_format: InterchangeFormat::Complete,
                interchange_format_version: SUPPORTED_INTERCHANGE_FORMAT_VERSION,
                genesis_validators_root,
            }),
            r.data matches InterchangeData::Complete(d) && d@.len() == self.entries@.len() && (forall|
                i: int,
            |
                0 <= i < d@.len() ==> (#[trigger] d@[i]).pubkey == self.entries@[i].pubkey
                    && d@[i].signed_blocks@ == complete_blocks_of(self.entries@[i])
                    && d@[i].signed_attestations@ == complete_attestations_of(self.entries@[i])),
    {
        let mut data: Vec<CompleteInterchangeData> = Vec::new();
        let mut i: usize = 0;
        while i < self.entries.len()
            invariant
                0 <= i <= self.entries@.len(),
                data@.len() == i,
                forall|k: int| 0 <= k < i ==> (#[trigger] data@[k]).pubkey == self.entries@[k].pubkey
                    && data@[k].signed_blocks@ == complete_blocks_of(self.entries@[k])
                    && data@[k].signed_attestations@ == complete_attestations_of(self.entries@[k]),
            decreases self.entries@.len() - i,
        {
            let e = &self.entries[i];
            let mut blocks: Vec<InterchangeBlock> = Vec::new();
            match &e.block {
                Option::Some(r) => {
                    blocks.push(InterchangeBlock { slot: r.slot, signing_root: r.signing_root });
                },
                Option::None => {},
            }
            proof {
                assert(blocks@ =~= complete_blocks_of(self.entries@[i as int]));
            }
            let mut atts: Vec<InterchangeAttestation> = Vec::new();
            let mut k: usize = 0;
            while k < e.attestations.len()
                invariant
                    0 <= k <= e.attestations@.len(),
                    atts@.len() == k,
                    forall|j: int| 0 <= j < k ==> atts@[j] == export_attestation_of(
                        #[trigger] e.attestations@[j],
                    ),
                decreases e.attestations@.len() - k,
            {
                let a = e.attestations[k];
                atts.push(
                    InterchangeAttestation {
                        source_epoch: a.source,
                        target_epoch: a.target,
                        signing_root: a.signing_root,
                    },
                );
                k = k + 1;
            }
            proof {
                assert(atts@ =~= complete_attestations_of(self.entries@[i as int]));
            }
            data.push(
                CompleteInterchangeData { pubkey: e.pubkey, signed_blocks: blocks, signed_attestations: atts },
            );
            i = i + 1;
        }
        Interchange {
            metadata: InterchangeMetadata {
                interchange_format: InterchangeFormat::Complete,
                interchange_format_version: SUPPORTED_INTERCHANGE_FORMAT_VERSION,
                genesis_validators_root,
            },
            data: InterchangeData::Complete(data),
        }
    }
}


/// Whether the history already holds exactly this imported record.
fn attestation_record_present(hist: &Vec<AttestationSigningRecord>, a: &InterchangeAttestation) -> (r:
    bool)
    ensures
        r == hist@.contains(att_record_of(*a)),
{
    let mut i: usize = 0;
    while i < hist.len()
        invariant
            0 <= i <= hist@.len(),
            forall|j: int| 0 <= j < i ==> hist@[j] != att_record_of(*a),
        decreases hist@.len() - i,
    {
        let h = hist[i];
        let root_eq = match (h.signing_root, a.signing_root) {
            (Option::None, Option::None) => true,
            (Option::Some(x), Option::Some(y)) => x.0 == y.0,
            _ => false,
        };
        if h.source.0 == a.source_epoch.0 && h.target.0 == a.target_epoch.0 && root_eq {
            proof {
                assert(hist@[i as int] == att_record_of(*a));
            }
            return true;
        }
        i = i + 1;
    }
    proof {
        assert(!hist@.contains(att_record_of(*a)));
    }
    false
}

/// Whether every record of a minimal data section is well-formed.
fn minimal_all_valid(data: &Vec<MinimalInterchangeData>) -> (r: bool)
    ensures
        r == forall|i: int| 0 <= i < data@.len() ==> minimal_data_valid(#[trigger] data@[i]),
{
    let mut i: usize = 0;
    while i < data.len()
        invariant
            0 <= i <= data@.len(),
            forall|j: int| 0 <= j < i ==> minimal_data_valid(#[trigger] data@[j]),
        decreases data@.len() - i,
    {
        let d = &data[i];
        let ok = match (&d.last_signed_attestation_source_epoch, &d.last_signed_attestation_target_epoch) {
            (Option::None, Option::None) => true,
            (Option::Some(st), Option::Some(tt)) => st.0 <= tt.0,
            _ => false,
        };
        if !ok {
            proof {
                assert(!minimal_data_valid(data@[i as int]));
            }
            return false;
        }
        i = i + 1;
    }
    true
}

/// Whether every record of a complete data section is well-formed.
fn complete_all_valid(data: &Vec<CompleteInterchangeData>) -> (r: bool)
    ensures
        r == forall|i: int| 0 <= i < data@.len() ==> complete_data_valid(#[trigger] data@[i]),
{
    let mut i: usize = 0;
    while i < data.len()
        invariant
            0 <= i <= data@.len(),
            forall|j: int| 0 <= j < i ==> complete_data_valid(#[trigger] data@[j]),
        decreases data@.len() - i,
    {
        let d = &data[i];
        let mut k: usize = 0;
        while k < d.signed_attestations.len()
            invariant
                0 <= i < data@.len(),
                *d == data@[i as int],
                0 <= k <= d.signed_attestations@.len(),
                forall|j: int| 0 <= j < k ==> #[trigger] d.signed_attestations@[j].source_epoch.0
                    <= d.signed_attestations@[j].target_epoch.0,
            decreases d.signed_attestations@.len() - k,
        {
            if d.signed_attestations[k].source_epoch.0 > d.signed_attestations[k].target_epoch.0 {
                proof {
                    assert(!complete_data_valid(*d));
                }
                return false;
            }
            k = k + 1;
        }
        proof {
            assert(complete_data_valid(data@[i as int]));
        }
        i = i + 1;
    }
    true
}

impl SlashingDatabase {
    /// Merge one minimal record into the store, registering the key if it
    /// is unseen.
    fn apply_minimal_entry(&mut self, d: &MinimalInterchangeData)
        requires
            old(self).wf(),
            minimal_data_valid(*d),
        ensures
            final(self).wf(),
            final(self)@ == old(self)@.insert(d.pubkey, merge_minimal_history(
                if old(self)@.dom().contains(d.pubkey) {
                    old(self)@[d.pubkey]
                } else {
                    empty_history()
                },
                *d,
            )),
    {
        let ghost v0 = self@;
        let ghost h0 = if self@.dom().contains(d.pubkey) {
            self@[d.pubkey]
        } else {
            empty_history()
        };
        self.register_validator(d.pubkey);
        let found = self.find_index(&d.pubkey);
        match found {
            Option::None => {
                proof {
                    assert(self@.dom().contains(d.pubkey));
                    assert(false);
                }
            },
            Option::Some(i) => {
                let ghost s_r = self.entries@;
                proof {
                    lemma_unique_index(s_r, i as int, d.pubkey);
                    assert(self@.dom().contains(d.pubkey));
                    assert(self@[d.pubkey] == h0);
                    assert(self@ == view_of(s_r));
                    assert(view_of(s_r)[d.pubkey] == history_of(entry_of_seq(s_r, d.pubkey)));
                    assert(history_of(s_r[i as int]) == h0);
                }
                let nb = match (self.entries[i].block, d.last_signed_block_slot) {
                    (Option::None, Option::None) => Option::None,
                    (Option::Some(r), Option::None) => Option::Some(r),
                    (Option::None, Option::Some(s)) => Option::Some(
                        BlockSigningRecord { slot: s, signing_root: Option::None },
                    ),
                    (Option::Some(r), Option::Some(s)) => if s.0 > r.slot.0 {
                        Option::Some(BlockSigningRecord { slot: s, signing_root: Option::None })
                    } else {
                        Option::Some(r)
                    },
                };
                self.entries[i].block = nb;
                let ghost s_b = self.entries@;
                proof {
                    lemma_view_update(s_r, i as int, s_b[i as int]);
                }
                let es = max_source(&self.entries[i].attestations);
                let et = max_target(&self.entries[i].attestations);
                let ds = match d.last_signed_attestation_source_epoch {
                    Option::Some(e) => Option::Some(e.0),
                    Option::None => Option::None,
                };
                let dt = match d.last_signed_attestation_target_epoch {
                    Option::Some(e) => Option::Some(e.0),
                    Option::None => Option::None,
                };
                let ns = opt_max(es, ds);
                let nt = opt_max(et, dt);
                let changed = !(opt_u64_eq(ns, es) && opt_u64_eq(nt, et));
                if changed {
                    match (ns, nt) {
                        (Option::Some(a), Option::Some(b)) => {
                            proof {
                                lemma_max_source_bound(h0.attestations);
                                lemma_max_target_bound(h0.attestations);
                                assert(entry_wf(s_b[i as int]));
                                lemma_bounds_ordered(h0.attestations);
                                assert(a <= b);
                            }
                            self.entries[i].attestations.push(
                                AttestationSigningRecord {
                                    source: Epoch(a),
                                    target: Epoch(b),
                                    signing_root: Option::None,
                                },
                            );
                            proof {
                                lemma_view_update(s_b, i as int, self.entries@[i as int]);
                            }
                        },
                        _ => {
                            proof {
                                lemma_max_source_bound(h0.attestations);
                                lemma_max_target_bound(h0.attestations);
                                assert(false);
                            }
                        },
                    }
                }
                proof {
                    let hm = merge_minimal_history(h0, *d);
                    assert(history_of(self.entries@[i as int]).attestations =~= hm.attestations);
                    assert(history_of(self.entries@[i as int]) =~= hm);
                    assert(self@ =~= v0.insert(d.pubkey, hm));
                    assert forall|j: int| 0 <= j < self.entries@.len() implies entry_wf(
                        #[trigger] self.entries@[j],
                    ) by {
                        if j != i as int {
                            assert(self.entries@[j] == s_r[j]);
                            assert(entry_wf(s_r[j]));
                        } else {
                            assert(entry_wf(s_r[j]));
                            assert(forall|k: int| 0 <= k < h0.attestations.len()
                                ==> #[trigger] h0.attestations[k].source.0 <= h0.attestations[k].target.0);
                        }
                    }
                }
            },
        }
    }

    /// Merge one complete record into the store, registering the key if it
    /// is unseen.
    fn apply_complete_entry(&mut self, d: &CompleteInterchangeData)
        requires
            old(self).wf(),
            complete_data_valid(*d),
        ensures
            final(self).wf(),
            final(self)@ == old(self)@.insert(d.pubkey, merge_complete_history(
                if old(self)@.dom().contains(d.pubkey) {
                    old(self)@[d.pubkey]
                } else {
                    empty_history()
                },
                d.signed_blocks@,
                d.signed_attestations@,
            )),
    {
        let ghost v0 = self@;
        let ghost h0 = if self@.dom().contains(d.pubkey) {
            self@[d.pubkey]
        } else {
            empty_history()
        };
        self.register_validator(d.pubkey);
        let found = self.find_index(&d.pubkey);
        match found {
            Option::None => {
                proof {
                    assert(self@.dom().contains(d.pubkey));
                    assert(false);
                }
            },
            Option::Some(i) => {
                let ghost s_r = self.entries@;
                proof {
                    lemma_unique_index(s_r, i as int, d.pubkey);
                    assert(self@.dom().contains(d.pubkey));
                    assert(self@[d.pubkey] == h0);
                    assert(self@ == view_of(s_r));
                    assert(view_of(s_r)[d.pubkey] == history_of(entry_of_seq(s_r, d.pubkey)));
                    assert(history_of(s_r[i as int]) == h0);
                }
                let mut nb = self.entries[i].block;
                proof {
                    assert(d.signed_blocks@.skip(0) =~= d.signed_blocks@);
                }
                let mut k: usize = 0;
                while k < d.signed_blocks.len()
                    invariant
                        0 <= k <= d.signed_blocks@.len(),
                        merge_blocks(h0.block, d.signed_blocks@) == merge_blocks(
                            nb,
                            d.signed_blocks@.skip(k as int),
                        ),
                    decreases d.signed_blocks@.len() - k,
                {
                    let ghost rest = d.signed_blocks@.skip(k as int);
                    proof {
                        assert(rest[0] == d.signed_blocks@[k as int]);
                        assert(rest.drop_first() =~= d.signed_blocks@.skip(k + 1 as int));
                    }
                    let b = d.signed_blocks[k];
                    nb = match nb {
                        Option::None => Option::Some(
                            BlockSigningRecord { slot: b.slot, signing_root: b.signing_root },
                        ),
                        Option::Some(r) => if b.slot.0 > r.slot.0 {
                            Option::Some(BlockSigningRecord { slot: b.slot, signing_root: b.signing_root })
                        } else {
                            Option::Some(r)
                        },
                    };
                    k = k + 1;
                }
                proof {
                    assert(d.signed_blocks@.skip(d.signed_blocks@.len() as int) =~= Seq::<
                        InterchangeBlock,
                    >::empty());
                }
                self.entries[i].block = nb;
                let ghost s_b = self.entries@;
                proof {
                    lemma_view_update(s_r, i as int, s_b[i as int]);
                    assert(history_of(s_b[i as int]).block == merge_blocks(h0.block, d.signed_blocks@));
                }
                proof {
                    assert(d.signed_attestations@.skip(0) =~= d.signed_attestations@);
                }
                let mut k2: usize = 0;
                while k2 < d.signed_attestations.len()
                    invariant
                        0 <= k2 <= d.signed_attestations@.len(),
                        complete_data_valid(*d),
                        unique_keys(self.entries@),
                        i < self.entries@.len(),
                        self.entries@.len() == s_b.len(),
                        forall|j: int| 0 <= j < s_b.len() && j != i as int ==> self.entries@[j]
                            == s_b[j],
                        self.entries@[i as int].pubkey == s_b[i as int].pubkey,
                        self.entries@[i as int].block == s_b[i as int].block,
                        forall|j: int| 0 <= j < self.entries@.len() ==> entry_wf(
                            #[trigger] self.entries@[j],
                        ),
                        merge_attestations(s_b[i as int].attestations@, d.signed_attestations@)
                            == merge_attestations(
                            self.entries@[i as int].attestations@,
                            d.signed_attestations@.skip(k2 as int),
                        ),
                    decreases d.signed_attestations@.len() - k2,
                {
                    let ghost rest = d.signed_attestations@.skip(k2 as int);
                    let ghost s_cur = self.entries@;
                    proof {
                        assert(rest[0] == d.signed_attestations@[k2 as int]);
                        assert(rest.drop_first() =~= d.signed_attestations@.skip(k2 + 1 as int));
                    }
                    let a = d.signed_attestations[k2];
                    let present = attestation_record_present(&self.entries[i].attestations, &a);
                    if !present {
                        proof {
                            assert(d.signed_attestations@[k2 as int].source_epoch.0
                                <= d.signed_attestations@[k2 as int].target_epoch.0);
                        }
                        self.entries[i].attestations.push(
                            AttestationSigningRecord {
                                source: a.source_epoch,
                                target: a.target_epoch,
                                signing_root: a.signing_root,
                            },
                        );
                        proof {
                            assert(self.entries@[i as int].attestations@
                                =~= s_cur[i as int].attestations@.push(att_record_of(a)));
                            assert forall|j: int| 0 <= j < self.entries@.len() implies entry_wf(
                                #[trigger] self.entries@[j],
                            ) by {
                                assert(entry_wf(s_cur[j]));
                                if j == i as int {
                                    assert(forall|m: int|
                                        0 <= m < s_cur[j].attestations@.len()
                                            ==> #[trigger] s_cur[j].attestations@[m].source.0
                                            <= s_cur[j].attestations@[m].target.0);
                                }
                            }
                            assert forall|a2: int, b2: int|
                                0 <= a2 < b2 < self.entries@.len() implies self.entries@[a2].pubkey
                                != self.entries@[b2].pubkey by {
                                assert(s_cur[a2].pubkey != s_cur[b2].pubkey);
                            }
                        }
                    }
                    k2 = k2 + 1;
                }
                proof {
                    assert(d.signed_attestations@.skip(d.signed_attestations@.len() as int) =~= Seq::<
                        InterchangeAttestation,
                    >::empty());
                    assert(self.entries@ =~= s_b.update(i as int, self.entries@[i as int]));
                    lemma_view_update(s_b, i as int, self.entries@[i as int]);
                    let hm = merge_complete_history(h0, d.signed_blocks@, d.signed_attestations@);
                    assert(history_of(self.entries@[i as int]) =~= hm);
                    assert(self@ =~= v0.insert(d.pubkey, hm));
                }
            },
        }
    }

    /// Import an interchange document. A document from another chain, of a
    /// newer version than supported, or with a malformed data section is
    /// refused whole and the store is unchanged; an accepted document is
    /// merged key by key, never lowering a stored bound and never
    /// discarding a stored history record.
    pub fn import_interchange_info(
        &mut self,
        interchange: &Interchange,
        genesis_validators_root: Hash256,
    ) -> (r: Result<(), ImportError>)
        requires
            old(self).wf(),
        ensures
            final(self).wf(),
            match import_error_of(*interchange, genesis_validators_root) {
                Option::Some(e) => r == Err::<(), ImportError>(e) && *final(self) == *old(self),
                Option::None => r is Ok && final(self)@ == (match interchange.data {
                    InterchangeData::Minimal(data) => import_minimal_model(old(self)@, data@),
                    InterchangeData::Complete(data) => import_complete_model(old(self)@, data@),
                }),
            },
    {
        if interchange.metadata.genesis_validators_root.0 != genesis_validators_root.0 {
            return Err(ImportError::GenesisMismatch);
        }
        if interchange.metadata.interchange_format_version > SUPPORTED_INTERCHANGE_FORMAT_VERSION {
            return Err(ImportError::UnsupportedVersion);
        }
        match (&interchange.metadata.interchange_format, &interchange.data) {
            (InterchangeFormat::Minimal, InterchangeData::Minimal(data)) => {
                if !minimal_all_valid(data) {
                    return Err(ImportError::MalformedDocument);
                }
                let ghost v0 = self@;
                proof {
                    assert(data@.skip(0) =~= data@);
                }
                let mut k: usize = 0;
                while k < data.len()
                    invariant
                        0 <= k <= data@.len(),
                        self.wf(),
                        forall|j: int| 0 <= j < data@.len() ==> minimal_data_valid(
                            #[trigger] data@[j],
                        ),
                        import_minimal_model(v0, data@) == import_minimal_model(
                            self@,
                            data@.skip(k as int),
                        ),
                    decreases data@.len() - k,
                {
                    let ghost rest = data@.skip(k as int);
                    proof {
                        assert(rest[0] == data@[k as int]);
                        assert(rest.drop_first() =~= data@.skip(k + 1 as int));
                    }
                    let d = data[k];
                    self.apply_minimal_entry(&d);
                    k = k + 1;
                }
                proof {
                    assert(data@.skip(data@.len() as int) =~= Seq::<MinimalInterchangeData>::empty());
                }
                Ok(())
            },
            (InterchangeFormat::Complete, InterchangeData::Complete(data)) => {
                if !complete_all_valid(data) {
                    return Err(ImportError::MalformedDocument);
                }
                let ghost v0 = self@;
                proof {
                    assert(data@.skip(0) =~= data@);
                }
                let mut k: usize = 0;
                while k < data.len()
                    invariant
                        0 <= k <= data@.len(),
                        self.wf(),
                        forall|j: int| 0 <= j < data@.len() ==> complete_data_valid(
                            #[trigger] data@[j],
                        ),
                        import_complete_model(v0, data@) == import_complete_model(
                            self@,
                            data@.skip(k as int),
                        ),
                    decreases data@.len() - k,
                {
                    let ghost rest = data@.skip(k as int);
                    proof {
                        assert(rest[0] == data@[k as int]);
                        assert(rest.drop_first() =~= data@.skip(k + 1 as int));
                    }
                    let d = &data[k];
                    self.apply_complete_entry(d);
                    k = k + 1;
                }
                proof {
                    assert(data@.skip(data@.len() as int) =~= Seq::<CompleteInterchangeData>::empty());
                }
                Ok(())
            },
            _ => Err(ImportError::MalformedDocument),
        }
    }
}

} // verus!
