//! The signing record store: per-key history of accepted signing actions.
//!
//! The store owns one entry per registered public key, holding the
//! highest-slot block record and the full attestation history for that key.
//! Its mathematical model is a map from public key to [`ValidatorHistory`];
//! every mutating operation states in its contract how that map changes.

use vstd::prelude::*;

use crate::types::{Epoch, Hash256, PublicKey, Slot};

verus! {

/// The highest-slot block proposal ever accepted for a key. The signing
/// root is `None` when the record came from a minimal interchange import,
/// which carries only the slot bound.
#[derive(Clone, Copy, Debug, PartialEq, Eq)]
pub struct BlockSigningRecord {
    pub slot: Slot,
    pub signing_root: Option<Hash256>,
}

/// One accepted attestation. The signing root is `None` when the record
/// came from a minimal interchange import, which carries only epoch bounds.
#[derive(Clone, Copy, Debug, PartialEq, Eq)]
pub struct AttestationSigningRecord {
    pub source: Epoch,
    pub target: Epoch,
    pub signing_root: Option<Hash256>,
}

/// The stored state of one registered key.
#[derive(Clone, Debug, PartialEq, Eq)]
pub struct ValidatorEntry {
    pub pubkey: PublicKey,
    pub block: Option<BlockSigningRecord>,
    pub attestations: Vec<AttestationSigningRecord>,
}

/// The mathematical model of one key's state.
#[verifier::ext_equal]
pub ghost struct ValidatorHistory {
    pub block: Option<BlockSigningRecord>,
    pub attestations: Seq<AttestationSigningRecord>,
}

/// The model of a key that was registered and never signed.
pub open spec fn empty_history() -> ValidatorHistory {
    ValidatorHistory { block: Option::None, attestations: Seq::empty() }
}

/// The model of a stored entry.
pub open spec fn history_of(e: ValidatorEntry) -> ValidatorHistory {
    ValidatorHistory { block: e.block, attestations: e.attestations@ }
}

/// No two entries record the same public key.
pub open spec fn unique_keys(s: Seq<ValidatorEntry>) -> bool {
    forall|i: int, j: int| 0 <= i < j < s.len() ==> s[i].pubkey != s[j].pubkey
}

/// Some entry records `pk`.
pub open spec fn contains_key_seq(s: Seq<ValidatorEntry>, pk: PublicKey) -> bool {
    exists|i: int| 0 <= i < s.len() && s[i].pubkey == pk
}

/// The index of the entry recording `pk` (meaningful when keys are unique
/// and `pk` is present).
pub open spec fn index_of_key(s: Seq<ValidatorEntry>, pk: PublicKey) -> int {
    choose|i: int| 0 <= i < s.len() && s[i].pubkey == pk
}

/// The entry recording `pk`.
pub open spec fn entry_of_seq(s: Seq<ValidatorEntry>, pk: PublicKey) -> ValidatorEntry {
    s[index_of_key(s, pk)]
}

/// Every stored attestation satisfies the protocol invariant
/// `source <= target`.
pub open spec fn entry_wf(e: ValidatorEntry) -> bool {
    forall|k: int| 0 <= k < e.attestations@.len() ==> #[trigger] e.attestations@[k].source.0
        <= e.attestations@[k].target.0
}

/// The per-key map modelled by a sequence of entries.
pub open spec fn view_of(s: Seq<ValidatorEntry>) -> Map<PublicKey, ValidatorHistory> {
    Map::new(|pk: PublicKey| contains_key_seq(s, pk), |pk: PublicKey| history_of(entry_of_seq(s, pk)))
}

/// With unique keys, the entry found at any matching index is the entry of
/// that key.
pub proof fn lemma_unique_index(s: Seq<ValidatorEntry>, i: int, pk: PublicKey)
    requires
        unique_keys(s),
        0 <= i < s.len(),
        s[i].pubkey == pk,
    ensures
        contains_key_seq(s, pk),
        index_of_key(s, pk) == i,
        entry_of_seq(s, pk) == s[i],
{
    assert(contains_key_seq(s, pk));
    let j = index_of_key(s, pk);
    assert(0 <= j < s.len() && s[j].pubkey == pk);
    if i < j {
        assert(s[i].pubkey != s[j].pubkey);
    } else if j < i {
        assert(s[j].pubkey != s[i].pubkey);
    }
}

/// Appending an entry for a fresh key adds exactly that key to the model.
pub proof fn lemma_view_push(s: Seq<ValidatorEntry>, e: ValidatorEntry)
    requires
        unique_keys(s),
        !contains_key_seq(s, e.pubkey),
    ensures
        unique_keys(s.push(e)),
        view_of(s.push(e)) == view_of(s).insert(e.pubkey, history_of(e)),
        forall|q: PublicKey| #[trigger] contains_key_seq(s.push(e), q) <==> contains_key_seq(s, q)
            || q == e.pubkey,
{
    let s2 = s.push(e);
    assert forall|i: int, j: int| 0 <= i < j < s2.len() implies s2[i].pubkey != s2[j].pubkey by {
        if j < s.len() {
            assert(s[i].pubkey != s[j].pubkey);
        } else {
            assert(s2[j] == e);
            assert(s2[i] == s[i]);
            assert(contains_key_seq(s, s[i].pubkey));
        }
    }
    assert forall|q: PublicKey| #[trigger] contains_key_seq(s2, q) implies contains_key_seq(s, q)
        || q == e.pubkey by {
        let i = choose|i: int| 0 <= i < s2.len() && s2[i].pubkey == q;
        if i < s.len() {
            assert(s[i].pubkey == q);
        }
    }
    assert forall|q: PublicKey| contains_key_seq(s, q) || q == e.pubkey implies #[trigger] contains_key_seq(
        s2,
        q,
    ) by {
        if contains_key_seq(s, q) {
            let i = choose|i: int| 0 <= i < s.len() && s[i].pubkey == q;
            assert(s2[i].pubkey == q);
        } else {
            assert(s2[s.len() as int].pubkey == q);
        }
    }
    assert forall|q: PublicKey| contains_key_seq(s2, q) implies history_of(entry_of_seq(s2, q))
        == view_of(s).insert(e.pubkey, history_of(e))[q] by {
        if q == e.pubkey {
            lemma_unique_index(s2, s.len() as int, q);
        } else {
            let i = choose|i: int| 0 <= i < s.len() && s[i].pubkey == q;
            lemma_unique_index(s, i, q);
            lemma_unique_index(s2, i, q);
        }
    }
    assert(view_of(s2) =~= view_of(s).insert(e.pubkey, history_of(e)));
}

/// Replacing an entry by one for the same key updates exactly that key in
/// the model.
pub proof fn lemma_view_update(s: Seq<ValidatorEntry>, i: int, e: ValidatorEntry)
    requires
        unique_keys(s),
        0 <= i < s.len(),
        e.pubkey == s[i].pubkey,
    ensures
        unique_keys(s.update(i, e)),
        view_of(s.update(i, e)) == view_of(s).insert(e.pubkey, history_of(e)),
        forall|q: PublicKey| #[trigger] contains_key_seq(s.update(i, e), q) <==> contains_key_seq(s, q),
{
    let s2 = s.update(i, e);
    assert forall|a: int, b: int| 0 <= a < b < s2.len() implies s2[a].pubkey != s2[b].pubkey by {
        assert(s[a].pubkey != s[b].pubkey);
    }
    assert forall|q: PublicKey| #[trigger] contains_key_seq(s2, q) implies contains_key_seq(s, q) by {
        let a = choose|a: int| 0 <= a < s2.len() && s2[a].pubkey == q;
        assert(s[a].pubkey == q);
    }
    assert forall|q: PublicKey| #[trigger] contains_key_seq(s, q) implies contains_key_seq(s2, q) by {
        let a = choose|a: int| 0 <= a < s.len() && s[a].pubkey == q;
        assert(s2[a].pubkey == q);
    }
    assert forall|q: PublicKey| contains_key_seq(s2, q) implies history_of(entry_of_seq(s2, q))
        == view_of(s).insert(e.pubkey, history_of(e))[q] by {
        if q == e.pubkey {
            lemma_unique_index(s2, i, q);
        } else {
            let a = choose|a: int| 0 <= a < s.len() && s[a].pubkey == q;
            lemma_unique_index(s, a, q);
            lemma_unique_index(s2, a, q);
        }
    }
    assert(view_of(s2) =~= view_of(s).insert(e.pubkey, history_of(e)));
}

/// The highest source epoch among the recorded votes, `None` for an empty
/// history.
pub open spec fn max_source_of(hist: Seq<AttestationSigningRecord>) -> Option<u64>
    decreases hist.len(),
{
    if hist.len() == 0 {
        Option::None
    } else {
        let x = hist.last().source.0;
        match max_source_of(hist.drop_last()) {
            Option::None => Option::Some(x),
            Option::Some(m) => Option::Some(if x > m { x } else { m }),
        }
    }
}

/// The highest target epoch among the recorded votes, `None` for an empty
/// history.
pub open spec fn max_target_of(hist: Seq<AttestationSigningRecord>) -> Option<u64>
    decreases hist.len(),
{
    if hist.len() == 0 {
        Option::None
    } else {
        let x = hist.last().target.0;
        match max_target_of(hist.drop_last()) {
            Option::None => Option::Some(x),
            Option::Some(m) => Option::Some(if x > m { x } else { m }),
        }
    }
}

/// The maximum source epoch is a reached upper bound of the recorded
/// source epochs.
pub proof fn lemma_max_source_bound(hist: Seq<AttestationSigningRecord>)
    ensures
        max_source_of(hist) is None <==> hist.len() == 0,
        max_source_of(hist) matches Option::Some(m) ==> (exists|i: int|
            0 <= i < hist.len() && #[trigger] hist[i].source.0 == m) && (forall|i: int|
            0 <= i < hist.len() ==> #[trigger] hist[i].source.0 <= m),
    decreases hist.len(),
{
    if hist.len() > 0 {
        lemma_max_source_bound(hist.drop_last());
        let m = max_source_of(hist)->Some_0;
        if hist.len() == 1 {
            assert(hist[0].source.0 == m);
        } else {
            let rest = hist.drop_last();
            let mr = max_source_of(rest)->Some_0;
            if hist.last().source.0 > mr {
                assert(hist[hist.len() - 1].source.0 == m);
            } else {
                let w = choose|i: int| 0 <= i < rest.len() && #[trigger] rest[i].source.0 == mr;
                assert(hist[w].source.0 == m);
            }
        }
        assert forall|i: int| 0 <= i < hist.len() implies #[trigger] hist[i].source.0 <= m by {
            if i < hist.len() - 1 {
                assert(hist.drop_last()[i].source.0 <= max_source_of(hist.drop_last())->Some_0);
            }
        }
    }
}

/// The maximum target epoch is a reached upper bound of the recorded
/// target epochs.
pub proof fn lemma_max_target_bound(hist: Seq<AttestationSigningRecord>)
    ensures
        max_target_of(hist) is None <==> hist.len() == 0,
        max_target_of(hist) matches Option::Some(m) ==> (exists|i: int|
            0 <= i < hist.len() && #[trigger] hist[i].target.0 == m) && (forall|i: int|
            0 <= i < hist.len() ==> #[trigger] hist[i].target.0 <= m),
    decreases hist.len(),
{
    if hist.len() > 0 {
        lemma_max_target_bound(hist.drop_last());
        let m = max_target_of(hist)->Some_0;
        if hist.len() == 1 {
            assert(hist[0].target.0 == m);
        } else {
            let rest = hist.drop_last();
            let mr = max_target_of(rest)->Some_0;
            if hist.last().target.0 > mr {
                assert(hist[hist.len() - 1].target.0 == m);
            } else {
                let w = choose|i: int| 0 <= i < rest.len() && #[trigger] rest[i].target.0 == mr;
                assert(hist[w].target.0 == m);
            }
        }
        assert forall|i: int| 0 <= i < hist.len() implies #[trigger] hist[i].target.0 <= m by {
            if i < hist.len() - 1 {
                assert(hist.drop_last()[i].target.0 <= max_target_of(hist.drop_last())->Some_0);
            }
        }
    }
}

/// In a well-formed history the maximum source epoch never exceeds the
/// maximum target epoch.
pub proof fn lemma_bounds_ordered(hist: Seq<AttestationSigningRecord>)
    requires
        forall|k: int| 0 <= k < hist.len() ==> #[trigger] hist[k].source.0 <= hist[k].target.0,
    ensures
        max_source_of(hist) is Some ==> max_source_of(hist)->Some_0 <= max_target_of(hist)->Some_0,
    decreases hist.len(),
{
    if hist.len() > 0 {
        assert(forall|k: int| 0 <= k < hist.drop_last().len() ==> #[trigger] hist.drop_last()[k].source.0
            <= hist.drop_last()[k].target.0) by {
            assert(forall|k: int| 0 <= k < hist.len() - 1 ==> hist.drop_last()[k] == hist[k]);
        }
        lemma_bounds_ordered(hist.drop_last());
        assert(hist.last().source.0 <= hist.last().target.0);
    }
}

/// The durable slashing-protection store: one entry per registered key.
pub struct SlashingDatabase {
    pub entries: Vec<ValidatorEntry>,
}

impl View for SlashingDatabase {
    type V = Map<PublicKey, ValidatorHistory>;

    open spec fn view(&self) -> Map<PublicKey, ValidatorHistory> {
        view_of(self.entries@)
    }
}

impl SlashingDatabase {
    /// Keys are unique and every stored attestation has `source <= target`.
    pub open spec fn wf(self) -> bool {
        unique_keys(self.entries@) && (forall|i: int|
            0 <= i < self.entries@.len() ==> entry_wf(#[trigger] self.entries@[i]))
    }

    /// Create an empty store.
    pub fn create() -> (db: SlashingDatabase)
        ensures
            db.wf(),
            db@ == Map::<PublicKey, ValidatorHistory>::empty(),
            db.entries@.len() == 0,
    {
        let db = SlashingDatabase { entries: Vec::new() };
        proof {
            assert(db@ =~= Map::<PublicKey, ValidatorHistory>::empty());
        }
        db
    }

    /// The position of the entry for `pubkey`, if the key is registered.
    pub(crate) fn find_index(&self, pubkey: &PublicKey) -> (r: Option<usize>)
        ensures
            r matches Option::Some(i) ==> i < self.entries@.len() && self.entries@[i as int].pubkey
                == *pubkey,
            r is None ==> !contains_key_seq(self.entries@, *pubkey),
    {
        let mut i: usize = 0;
        while i < self.entries.len()
            invariant
                0 <= i <= self.entries@.len(),
                forall|j: int| 0 <= j < i ==> self.entries@[j].pubkey != *pubkey,
            decreases self.entries@.len() - i,
        {
            if self.entries[i].pubkey == *pubkey {
                return Option::Some(i);
            }
            i = i + 1;
        }
        Option::None
    }

    /// Register one key: a fresh key gets an empty history, a registered
    /// key is left untouched (registration is idempotent).
    pub fn register_validator(&mut self, pubkey: PublicKey)
        requires
            old(self).wf(),
        ensures
            final(self).wf(),
            final(self)@ == old(self)@.insert(pubkey, if old(self)@.dom().contains(pubkey) {
                old(self)@[pubkey]
            } else {
                empty_history()
            }),
    {
        let found = self.find_index(&pubkey);
        match found {
            Option::Some(i) => {
                proof {
                    lemma_unique_index(self.entries@, i as int, pubkey);
                    assert(self@ =~= self@.insert(pubkey, self@[pubkey]));
                }
            },
            Option::None => {
                let ghost s = self.entries@;
                let e = ValidatorEntry { pubkey, block: Option::None, attestations: Vec::new() };
                proof {
                    lemma_view_push(s, e);
                    assert(history_of(e) =~= empty_history());
                }
                self.entries.push(e);
            },
        }
    }

    /// Register every key in `pubkeys`; keys already registered keep their
    /// history.
    pub fn register_validators(&mut self, pubkeys: &Vec<PublicKey>)
        requires
            old(self).wf(),
        ensures
            final(self).wf(),
            forall|q: PublicKey| #[trigger] final(self)@.dom().contains(q) <==> old(
                self,
            )@.dom().contains(q) || pubkeys@.contains(q),
            forall|q: PublicKey| old(self)@.dom().contains(q) ==> #[trigger] final(self)@[q] == old(
                self,
            )@[q],
            forall|q: PublicKey|
                !old(self)@.dom().contains(q) && pubkeys@.contains(q) ==> #[trigger] final(self)@[q]
                    == empty_history(),
    {
        let mut i: usize = 0;
        while i < pubkeys.len()
            invariant
                self.wf(),
                0 <= i <= pubkeys@.len(),
                forall|q: PublicKey| #[trigger] self@.dom().contains(q) <==> old(
                    self,
                )@.dom().contains(q) || pubkeys@.subrange(0, i as int).contains(q),
                forall|q: PublicKey| old(self)@.dom().contains(q) ==> #[trigger] self@[q] == old(
                    self,
                )@[q],
                forall|q: PublicKey|
                    !old(self)@.dom().contains(q) && pubkeys@.subrange(0, i as int).contains(q)
                        ==> #[trigger] self@[q] == empty_history(),
            decreases pubkeys@.len() - i,
        {
            let pk = pubkeys[i];
            proof {
                assert(pubkeys@.subrange(0, i + 1 as int) =~= pubkeys@.subrange(0, i as int).push(
                    pubkeys@[i as int],
                ));
                assert forall|q: PublicKey| #[trigger] pubkeys@.subrange(0, i + 1 as int).contains(q)
                    implies pubkeys@.subrange(0, i as int).contains(q) || q == pk by {
                    let w = choose|w: int|
                        0 <= w < i + 1 && (#[trigger] pubkeys@.subrange(0, i + 1 as int)[w]) == q;
                    if w < i {
                        assert(pubkeys@.subrange(0, i as int)[w] == q);
                    }
                }
                assert forall|q: PublicKey| pubkeys@.subrange(0, i as int).contains(q) || q == pk
                    implies #[trigger] pubkeys@.subrange(0, i + 1 as int).contains(q) by {
                    if pubkeys@.subrange(0, i as int).contains(q) {
                        let w = choose|w: int|
                            0 <= w < i && (#[trigger] pubkeys@.subrange(0, i as int)[w]) == q;
                        assert(pubkeys@.subrange(0, i + 1 as int)[w] == q);
                    } else {
                        assert(pubkeys@.subrange(0, i + 1 as int)[i as int] == q);
                    }
                }
            }
            self.register_validator(pk);
            i = i + 1;
        }
        proof {
            assert(pubkeys@.subrange(0, pubkeys@.len() as int) =~= pubkeys@);
        }
    }

    /// The recorded highest-slot block proposal for `pubkey`, if any.
    pub fn get_block_record(&self, pubkey: &PublicKey) -> (r: Option<BlockSigningRecord>)
        requires
            self.wf(),
        ensures
            self@.dom().contains(*pubkey) ==> r == self@[*pubkey].block,
            !self@.dom().contains(*pubkey) ==> r is None,
    {
        let found = self.find_index(pubkey);
        match found {
            Option::Some(i) => {
                proof {
                    lemma_unique_index(self.entries@, i as int, *pubkey);
                }
                self.entries[i].block
            },
            Option::None => Option::None,
        }
    }

    /// The recorded attestation bounds for `pubkey`: the highest source and
    /// highest target epoch ever accepted, `None` if the key never attested
    /// or is not registered.
    pub fn get_attestation_bounds(&self, pubkey: &PublicKey) -> (r: Option<(Epoch, Epoch)>)
        requires
            self.wf(),
        ensures
            self@.dom().contains(*pubkey) ==> r == (match max_source_of(self@[*pubkey].attestations) {
                Option::Some(ms) => Option::Some(
                    (Epoch(ms), Epoch(max_target_of(self@[*pubkey].attestations)->Some_0)),
                ),
                Option::None => Option::None::<(Epoch, Epoch)>,
            }),
            !self@.dom().contains(*pubkey) ==> r is None,
    {
        let found = self.find_index(pubkey);
        match found {
            Option::Some(i) => {
                proof {
                    lemma_unique_index(self.entries@, i as int, *pubkey);
                }
                let ms = max_source(&self.entries[i].attestations);
                let mt = max_target(&self.entries[i].attestations);
                proof {
                    lemma_max_source_bound(self@[*pubkey].attestations);
                    lemma_max_target_bound(self@[*pubkey].attestations);
                }
                match (ms, mt) {
                    (Option::Some(s), Option::Some(t)) => Option::Some((Epoch(s), Epoch(t))),
                    _ => Option::None,
                }
            },
            Option::None => Option::None,
        }
    }
}

/// The highest source epoch in `hist`, computed.
pub fn max_source(hist: &Vec<AttestationSigningRecord>) -> (r: Option<u64>)
    ensures
        r == max_source_of(hist@),
{
    let mut r: Option<u64> = Option::None;
    let mut i: usize = 0;
    while i < hist.len()
        invariant
            0 <= i <= hist@.len(),
            r == max_source_of(hist@.subrange(0, i as int)),
        decreases hist@.len() - i,
    {
        let x = hist[i].source.0;
        let ghost prefix = hist@.subrange(0, i as int);
        let ghost prefix1 = hist@.subrange(0, i + 1 as int);
        proof {
            assert(prefix1.drop_last() =~= prefix);
            assert(prefix1.last() == hist@[i as int]);
        }
        r = match r {
            Option::None => Option::Some(x),
            Option::Some(m) => Option::Some(if x > m {
                x
            } else {
                m
            }),
        };
        i = i + 1;
    }
    proof {
        assert(hist@.subrange(0, hist@.len() as int) =~= hist@);
    }
    r
}

/// The highest target epoch in `hist`, computed.
pub fn max_target(hist: &Vec<AttestationSigningRecord>) -> (r: Option<u64>)
    ensures
        r == max_target_of(hist@),
{
    let mut r: Option<u64> = Option::None;
    let mut i: usize = 0;
    while i < hist.len()
        invariant
            0 <= i <= hist@.len(),
            r == max_target_of(hist@.subrange(0, i as int)),
        decreases hist@.len() - i,
    {
        let x = hist[i].target.0;
        let ghost prefix = hist@.subrange(0, i as int);
        let ghost prefix1 = hist@.subrange(0, i + 1 as int);
        proof {
            assert(prefix1.drop_last() =~= prefix);
            assert(prefix1.last() == hist@[i as int]);
        }
        r = match r {
            Option::None => Option::Some(x),
            Option::Some(m) => Option::Some(if x > m {
                x
            } else {
                m
            }),
        };
        i = i + 1;
    }
    proof {
        assert(hist@.subrange(0, hist@.len() as int) =~= hist@);
    }
    r
}

} // verus!
