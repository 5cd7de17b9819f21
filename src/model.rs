use vstd::prelude::*;

use crate::types::{valid_text_len, ProofDataView};

verus! {

/// A stored proof: its owner and its record.
pub type Entry = (Seq<u8>, ProofDataView);

/// A per-owner counter: the owner and how many proofs it has certified.
pub type Counter = (Seq<u8>, u64);

/// The abstract state of a registry.
///
/// `proofs` lists every certified proof in creation order together with its owner;
/// it is at once the record store, the ownership index (proof id to owner) and the
/// per-owner index (an owner's ids, in creation order). `counters` holds one
/// counter per owner that has certified something, and `total` the global counter.
pub ghost struct RegistryView {
    pub proofs: Seq<Entry>,
    pub counters: Seq<Counter>,
    pub total: u64,
}

/// The records owned by `owner`, in creation order.
pub open spec fn owned_records(s: Seq<Entry>, owner: Seq<u8>) -> Seq<ProofDataView>
    decreases s.len(),
{
    if s.len() == 0 {
        Seq::empty()
    } else {
        let rest = owned_records(s.drop_last(), owner);
        if s.last().0 == owner {
            rest.push(s.last().1)
        } else {
            rest
        }
    }
}

/// The proof ids owned by `owner`, in creation order.
pub open spec fn owned_ids(s: Seq<Entry>, owner: Seq<u8>) -> Seq<Seq<u8>>
    decreases s.len(),
{
    if s.len() == 0 {
        Seq::empty()
    } else {
        let rest = owned_ids(s.drop_last(), owner);
        if s.last().0 == owner {
            rest.push(s.last().1.proof_id)
        } else {
            rest
        }
    }
}

/// The position of `owner`'s counter, or -1 when it has none.
pub open spec fn counter_index(s: Seq<Counter>, owner: Seq<u8>) -> int
    decreases s.len(),
{
    if s.len() == 0 {
        -1
    } else if s.last().0 == owner {
        s.len() - 1
    } else {
        counter_index(s.drop_last(), owner)
    }
}

/// The sum of all per-owner counters.
pub open spec fn counter_sum(s: Seq<Counter>) -> nat
    decreases s.len(),
{
    if s.len() == 0 {
        0
    } else {
        counter_sum(s.drop_last()) + s.last().1 as nat
    }
}

/// The counters after `owner`'s has been raised by one (created at one if absent).
pub open spec fn bumped(s: Seq<Counter>, owner: Seq<u8>) -> Seq<Counter> {
    let k = counter_index(s, owner);
    if k >= 0 {
        s.update(k, (owner, (s[k].1 + 1) as u64))
    } else {
        s.push((owner, 1u64))
    }
}

/// No two stored proofs share an id.
pub open spec fn ids_unique(s: Seq<Entry>) -> bool {
    forall|i: int, j: int|
        0 <= i < s.len() && 0 <= j < s.len() && i != j ==> #[trigger] s[i].1.proof_id
            != #[trigger] s[j].1.proof_id
}

/// No two counters share an owner.
pub open spec fn owners_unique(s: Seq<Counter>) -> bool {
    forall|i: int, j: int|
        0 <= i < s.len() && 0 <= j < s.len() && i != j ==> #[trigger] s[i].0 != #[trigger] s[j].0
}

impl RegistryView {
    /// The registry with nothing certified.
    pub open spec fn empty() -> RegistryView {
        RegistryView { proofs: Seq::empty(), counters: Seq::empty(), total: 0 }
    }

    /// The ownership index has an entry for `id`.
    pub open spec fn has_id(self, id: Seq<u8>) -> bool {
        exists|i: int| 0 <= i < self.proofs.len() && #[trigger] self.proofs[i].1.proof_id == id
    }

    /// Where the proof with id `id` is stored (meaningful when `has_id(id)`).
    pub open spec fn index_of(self, id: Seq<u8>) -> int {
        choose|i: int| 0 <= i < self.proofs.len() && #[trigger] self.proofs[i].1.proof_id == id
    }

    /// The ownership index: the owner of `id`, if it is registered.
    pub open spec fn owner_of(self, id: Seq<u8>) -> Option<Seq<u8>> {
        if self.has_id(id) {
            Some(self.proofs[self.index_of(id)].0)
        } else {
            None
        }
    }

    /// The record stored under (`owner`, `id`), if any.
    pub open spec fn record(self, owner: Seq<u8>, id: Seq<u8>) -> Option<ProofDataView> {
        if self.owner_of(id) == Some(owner) {
            Some(self.proofs[self.index_of(id)].1)
        } else {
            None
        }
    }

    /// The per-owner counter of `owner` (zero if it never certified).
    pub open spec fn counter(self, owner: Seq<u8>) -> u64 {
        let k = counter_index(self.counters, owner);
        if k >= 0 {
            self.counters[k].1
        } else {
            0
        }
    }

    /// The set of ids whose ownership index entry is `owner`.
    pub open spec fn ids_owned_by(self, owner: Seq<u8>) -> Set<Seq<u8>> {
        Set::new(|id: Seq<u8>| self.owner_of(id) == Some(owner))
    }

    /// The registry invariants.
    pub open spec fn wf(self) -> bool {
        &&& ids_unique(self.proofs)
        &&& owners_unique(self.counters)
        &&& forall|i: int|
            0 <= i < self.proofs.len() ==> valid_text_len(#[trigger] self.proofs[i].1.proof_text.len())
        &&& forall|owner: Seq<u8>|
            #[trigger] self.counter(owner) == owned_records(self.proofs, owner).len()
        &&& self.total == self.proofs.len()
        &&& counter_sum(self.counters) == self.proofs.len()
    }

    /// The state after `caller` certifies a new proof.
    pub open spec fn certified(
        self,
        caller: Seq<u8>,
        timestamp: u64,
        proof_text: Seq<u8>,
        proof_id: Seq<u8>,
        metadata: Option<Seq<u8>>,
    ) -> RegistryView {
        let record = ProofDataView {
            proof_text,
            timestamp,
            proof_id,
            metadata: match metadata {
                Some(m) => m,
                None => Seq::empty(),
            },
        };
        RegistryView {
            proofs: self.proofs.push((caller, record)),
            counters: bumped(self.counters, caller),
            total: (self.total + 1) as u64,
        }
    }

    /// The state after the owner of `proof_id` replaces its text, and its metadata
    /// when new metadata is given.
    pub open spec fn updated(
        self,
        proof_id: Seq<u8>,
        new_proof_text: Seq<u8>,
        new_metadata: Option<Seq<u8>>,
    ) -> RegistryView {
        let i = self.index_of(proof_id);
        let old_record = self.proofs[i].1;
        let record = ProofDataView {
            proof_text: new_proof_text,
            metadata: match new_metadata {
                Some(m) => m,
                None => old_record.metadata,
            },
            ..old_record
        };
        RegistryView { proofs: self.proofs.update(i, (self.proofs[i].0, record)), ..self }
    }
}

/// With unique ids, the stored position of an id is the one `index_of` picks.
pub proof fn lemma_index_of(v: RegistryView, i: int)
    requires
        ids_unique(v.proofs),
        0 <= i < v.proofs.len(),
    ensures
        v.has_id(v.proofs[i].1.proof_id),
        v.index_of(v.proofs[i].1.proof_id) == i,
{
    let id = v.proofs[i].1.proof_id;
    assert(v.proofs[i].1.proof_id == id);
}

/// With unique owners, an owner's counter sits where it is found.
pub proof fn lemma_counter_index(s: Seq<Counter>, k: int)
    requires
        owners_unique(s),
        0 <= k < s.len(),
    ensures
        counter_index(s, s[k].0) == k,
    decreases s.len(),
{
    if k < s.len() - 1 {
        let t = s.drop_last();
        assert(t[k] == s[k]);
        lemma_counter_index(t, k);
    }
}

/// An owner without a counter entry has index -1.
pub proof fn lemma_counter_index_absent(s: Seq<Counter>, owner: Seq<u8>)
    requires
        forall|k: int| 0 <= k < s.len() ==> #[trigger] s[k].0 != owner,
    ensures
        counter_index(s, owner) == -1,
    decreases s.len(),
{
    if s.len() > 0 {
        let t = s.drop_last();
        assert forall|k: int| 0 <= k < t.len() implies #[trigger] t[k].0 != owner by {
            assert(t[k] == s[k]);
        }
        lemma_counter_index_absent(t, owner);
    }
}

/// `counter_index` gives -1 or a position holding that owner.
pub proof fn lemma_counter_index_range(s: Seq<Counter>, owner: Seq<u8>)
    ensures
        -1 <= counter_index(s, owner) < s.len(),
        counter_index(s, owner) >= 0 ==> s[counter_index(s, owner)].0 == owner,
    decreases s.len(),
{
    if s.len() > 0 && s.last().0 != owner {
        lemma_counter_index_range(s.drop_last(), owner);
    }
}

/// Each counter is at most the sum of all counters.
pub proof fn lemma_counter_le_sum(s: Seq<Counter>, k: int)
    requires
        0 <= k < s.len(),
    ensures
        s[k].1 <= counter_sum(s),
    decreases s.len(),
{
    if k < s.len() - 1 {
        assert(s.drop_last()[k] == s[k]);
        lemma_counter_le_sum(s.drop_last(), k);
    }
}

/// Replacing one counter's value changes the sum by the difference.
pub proof fn lemma_counter_sum_update(s: Seq<Counter>, k: int, c: Counter)
    requires
        0 <= k < s.len(),
    ensures
        counter_sum(s.update(k, c)) + s[k].1 == counter_sum(s) + c.1,
    decreases s.len(),
{
    let u = s.update(k, c);
    if k < s.len() - 1 {
        assert(u.drop_last() =~= s.drop_last().update(k, c));
        lemma_counter_sum_update(s.drop_last(), k, c);
    } else {
        assert(u.drop_last() =~= s.drop_last());
    }
}

/// Replacing one counter's value leaves the other owners' indices alone.
pub proof fn lemma_counter_index_update(s: Seq<Counter>, k: int, c: u64, owner: Seq<u8>)
    requires
        0 <= k < s.len(),
    ensures
        counter_index(s.update(k, (s[k].0, c)), owner) == counter_index(s, owner),
    decreases s.len(),
{
    let u = s.update(k, (s[k].0, c));
    if k < s.len() - 1 {
        assert(u.drop_last() =~= s.drop_last().update(k, (s[k].0, c)));
        assert(s.drop_last()[k] == s[k]);
        lemma_counter_index_update(s.drop_last(), k, c, owner);
    } else {
        assert(u.drop_last() =~= s.drop_last());
    }
}

/// Appending an entry extends only its owner's records.
pub proof fn lemma_owned_push(s: Seq<Entry>, e: Entry, owner: Seq<u8>)
    ensures
        owned_records(s.push(e), owner) == (if e.0 == owner {
            owned_records(s, owner).push(e.1)
        } else {
            owned_records(s, owner)
        }),
        owned_ids(s.push(e), owner) == (if e.0 == owner {
            owned_ids(s, owner).push(e.1.proof_id)
        } else {
            owned_ids(s, owner)
        }),
{
    assert(s.push(e).drop_last() =~= s);
}

/// Replacing a record without changing its owner keeps every owner's record count
/// and ids.
pub proof fn lemma_owned_update(s: Seq<Entry>, k: int, d: ProofDataView, owner: Seq<u8>)
    requires
        0 <= k < s.len(),
        d.proof_id == s[k].1.proof_id,
    ensures
        owned_records(s.update(k, (s[k].0, d)), owner).len() == owned_records(s, owner).len(),
        owned_ids(s.update(k, (s[k].0, d)), owner) == owned_ids(s, owner),
    decreases s.len(),
{
    let u = s.update(k, (s[k].0, d));
    if k < s.len() - 1 {
        assert(u.drop_last() =~= s.drop_last().update(k, (s[k].0, d)));
        assert(s.drop_last()[k] == s[k]);
        lemma_owned_update(s.drop_last(), k, d, owner);
    } else {
        assert(u.drop_last() =~= s.drop_last());
    }
}

/// An id is among `owner`'s ids exactly when some entry of `owner` carries it.
pub proof fn lemma_owned_ids_contains(s: Seq<Entry>, owner: Seq<u8>, id: Seq<u8>)
    ensures
        owned_ids(s, owner).contains(id) <==> exists|i: int|
            0 <= i < s.len() && #[trigger] s[i].0 == owner && s[i].1.proof_id == id,
    decreases s.len(),
{
    if s.len() > 0 {
        let t = s.drop_last();
        lemma_owned_ids_contains(t, owner, id);
        if owned_ids(s, owner).contains(id) {
            if s.last().0 == owner && s.last().1.proof_id == id {
                assert(s[s.len() - 1].0 == owner);
            } else {
                if s.last().0 == owner {
                    let j = owned_ids(s, owner).index_of(id);
                    assert(owned_ids(t, owner).contains(id)) by {
                        assert(owned_ids(t, owner)[j] == id);
                    }
                }
                let i = choose|i: int|
                    0 <= i < t.len() && #[trigger] t[i].0 == owner && t[i].1.proof_id == id;
                assert(s[i] == t[i]);
            }
        } else {
            assert forall|i: int| 0 <= i < s.len() && #[trigger] s[i].0 == owner implies s[i].1.proof_id != id by {
                if i < s.len() - 1 {
                    assert(s[i] == t[i]);
                    if s[i].1.proof_id == id {
                        assert(t[i].0 == owner && t[i].1.proof_id == id);
                        if s.last().0 == owner {
                            let j = owned_ids(t, owner).index_of(id);
                            assert(owned_ids(s, owner)[j] == id);
                        }
                    }
                } else {
                    if s.last().0 == owner {
                        assert(owned_ids(s, owner)[owned_ids(s, owner).len() - 1] == s.last().1.proof_id);
                    }
                }
            }
        }
    }
}

/// With unique ids, no id repeats among an owner's ids.
pub proof fn lemma_owned_ids_no_duplicates(s: Seq<Entry>, owner: Seq<u8>)
    requires
        ids_unique(s),
    ensures
        owned_ids(s, owner).no_duplicates(),
        owned_ids(s, owner).len() == owned_records(s, owner).len(),
    decreases s.len(),
{
    if s.len() > 0 {
        let t = s.drop_last();
        assert(ids_unique(t)) by {
            assert forall|i: int, j: int|
                0 <= i < t.len() && 0 <= j < t.len() && i != j implies #[trigger] t[i].1.proof_id
                != #[trigger] t[j].1.proof_id by {
                assert(t[i] == s[i] && t[j] == s[j]);
            }
        }
        lemma_owned_ids_no_duplicates(t, owner);
        if s.last().0 == owner {
            let id = s.last().1.proof_id;
            lemma_owned_ids_contains(t, owner, id);
            if owned_ids(t, owner).contains(id) {
                let i = choose|i: int|
                    0 <= i < t.len() && #[trigger] t[i].0 == owner && t[i].1.proof_id == id;
                assert(s[i] == t[i]);
                assert(s[i].1.proof_id == s[s.len() - 1].1.proof_id);
            }
            let r = owned_ids(s, owner);
            assert forall|a: int, b: int| 0 <= a < r.len() && 0 <= b < r.len() && a != b implies r[a] != r[b] by {
                if a < r.len() - 1 && b < r.len() - 1 {
                } else if a == r.len() - 1 {
                    assert(owned_ids(t, owner)[b] == r[b]);
                } else {
                    assert(owned_ids(t, owner)[a] == r[a]);
                }
            }
        }
    }
}

/// Certifying a fresh id with a valid text keeps the invariants.
pub proof fn lemma_certified_wf(
    v: RegistryView,
    caller: Seq<u8>,
    timestamp: u64,
    proof_text: Seq<u8>,
    proof_id: Seq<u8>,
    metadata: Option<Seq<u8>>,
)
    requires
        v.wf(),
        v.total < u64::MAX,
        !v.has_id(proof_id),
        valid_text_len(proof_text.len()),
    ensures
        v.certified(caller, timestamp, proof_text, proof_id, metadata).wf(),
{
    let w = v.certified(caller, timestamp, proof_text, proof_id, metadata);
    let s = v.counters;
    let n = v.proofs.len();
    let k = counter_index(s, caller);
    lemma_counter_index_range(s, caller);
    assert(ids_unique(w.proofs)) by {
        assert forall|i: int, j: int|
            0 <= i < w.proofs.len() && 0 <= j < w.proofs.len() && i != j implies #[trigger] w.proofs[i].1.proof_id
            != #[trigger] w.proofs[j].1.proof_id by {
            if i < n && j < n {
                assert(w.proofs[i] == v.proofs[i] && w.proofs[j] == v.proofs[j]);
            } else if i < n {
                assert(w.proofs[i] == v.proofs[i]);
            } else {
                assert(w.proofs[j] == v.proofs[j]);
            }
        }
    }
    assert(forall|i: int| 0 <= i < n ==> w.proofs[i] == v.proofs[i]);
    if k >= 0 {
        lemma_counter_le_sum(s, k);
        let c = (s[k].1 + 1) as u64;
        assert(owners_unique(w.counters)) by {
            assert forall|i: int, j: int|
                0 <= i < w.counters.len() && 0 <= j < w.counters.len() && i != j implies #[trigger] w.counters[i].0
                != #[trigger] w.counters[j].0 by {
                assert(w.counters[i].0 == s[i].0 && w.counters[j].0 == s[j].0);
            }
        }
        lemma_counter_sum_update(s, k, (caller, c));
        assert forall|owner: Seq<u8>| #[trigger] w.counter(owner) == owned_records(w.proofs, owner).len() by {
            lemma_owned_push(v.proofs, (caller, w.proofs[n as int].1), owner);
            lemma_counter_index_update(s, k, c, owner);
            assert(w.counters =~= s.update(k, (s[k].0, c)));
            lemma_counter_index_range(s, owner);
            assert(v.counter(owner) == owned_records(v.proofs, owner).len());
        }
    } else {
        assert forall|j: int| 0 <= j < s.len() implies #[trigger] s[j].0 != caller by {
            if s[j].0 == caller {
                lemma_counter_index(s, j);
            }
        }
        assert(owners_unique(w.counters)) by {
            assert forall|i: int, j: int|
                0 <= i < w.counters.len() && 0 <= j < w.counters.len() && i != j implies #[trigger] w.counters[i].0
                != #[trigger] w.counters[j].0 by {
                if i < s.len() && j < s.len() {
                    assert(w.counters[i] == s[i] && w.counters[j] == s[j]);
                } else if i < s.len() {
                    assert(w.counters[i] == s[i]);
                } else {
                    assert(w.counters[j] == s[j]);
                }
            }
        }
        assert(w.counters.drop_last() =~= s);
        assert forall|owner: Seq<u8>| #[trigger] w.counter(owner) == owned_records(w.proofs, owner).len() by {
            lemma_owned_push(v.proofs, (caller, w.proofs[n as int].1), owner);
            assert(v.counter(owner) == owned_records(v.proofs, owner).len());
            lemma_counter_index_range(s, owner);
            if owner != caller {
                assert(counter_index(w.counters, owner) == counter_index(s, owner));
                if counter_index(s, owner) >= 0 {
                    assert(w.counters[counter_index(s, owner)] == s[counter_index(s, owner)]);
                }
            }
        }
    }
}

/// An authorized update with a valid text keeps the invariants.
pub proof fn lemma_updated_wf(
    v: RegistryView,
    proof_id: Seq<u8>,
    new_proof_text: Seq<u8>,
    new_metadata: Option<Seq<u8>>,
)
    requires
        v.wf(),
        v.has_id(proof_id),
        valid_text_len(new_proof_text.len()),
    ensures
        v.updated(proof_id, new_proof_text, new_metadata).wf(),
{
    let w = v.updated(proof_id, new_proof_text, new_metadata);
    let k = v.index_of(proof_id);
    let d = w.proofs[k].1;
    assert(w.proofs =~= v.proofs.update(k, (v.proofs[k].0, d)));
    assert(ids_unique(w.proofs)) by {
        assert forall|i: int, j: int|
            0 <= i < w.proofs.len() && 0 <= j < w.proofs.len() && i != j implies #[trigger] w.proofs[i].1.proof_id
            != #[trigger] w.proofs[j].1.proof_id by {
            assert(w.proofs[i].1.proof_id == v.proofs[i].1.proof_id);
            assert(w.proofs[j].1.proof_id == v.proofs[j].1.proof_id);
        }
    }
    assert forall|i: int| 0 <= i < w.proofs.len() implies valid_text_len(
        #[trigger] w.proofs[i].1.proof_text.len(),
    ) by {
        if i != k {
            assert(w.proofs[i] == v.proofs[i]);
        }
    }
    assert forall|owner: Seq<u8>| #[trigger] w.counter(owner) == owned_records(w.proofs, owner).len() by {
        lemma_owned_update(v.proofs, k, d, owner);
        assert(v.counter(owner) == owned_records(v.proofs, owner).len());
    }
}

} // verus!
