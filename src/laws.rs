use vstd::prelude::*;

use crate::model::{
    counter_sum, lemma_certified_wf, lemma_index_of, lemma_owned_ids_contains,
    lemma_owned_ids_no_duplicates, lemma_updated_wf, owned_ids, RegistryView,
};
use crate::types::{valid_text_len, ProofDataView};

verus! {

/// Once certified, an id is registered to its certifier with the given record, so
/// every later certify of that id, by any caller, is refused with `DuplicateId`.
pub proof fn certified_id_is_taken(
    v: RegistryView,
    caller: Seq<u8>,
    timestamp: u64,
    proof_text: Seq<u8>,
    proof_id: Seq<u8>,
    metadata: Option<Seq<u8>>,
)
    requires
        v.wf(),
        v.total < u64::MAX,
        !v.has_id(proof_id),
        valid_text_len(proof_text.len()),
    ensures
        ({
            let w = v.certified(caller, timestamp, proof_text, proof_id, metadata);
            &&& w.has_id(proof_id)
            &&& w.owner_of(proof_id) == Some(caller)
            &&& w.record(caller, proof_id) == Some(
                ProofDataView {
                    proof_text,
                    timestamp,
                    proof_id,
                    metadata: match metadata {
                        Some(m) => m,
                        None => Seq::empty(),
                    },
                },
            )
        }),
{
    let w = v.certified(caller, timestamp, proof_text, proof_id, metadata);
    lemma_certified_wf(v, caller, timestamp, proof_text, proof_id, metadata);
    lemma_index_of(w, v.proofs.len() as int);
}

/// In every well-formed state, each owner's counter is the number of ids whose
/// ownership entry names that owner, and the global counter is the sum of the
/// per-owner counters (one counter per owner).
pub proof fn counters_match_ownership(v: RegistryView, owner: Seq<u8>)
    requires
        v.wf(),
    ensures
        v.ids_owned_by(owner).finite(),
        v.counter(owner) == v.ids_owned_by(owner).len(),
        v.total == counter_sum(v.counters),
{
    let ids = owned_ids(v.proofs, owner);
    assert forall|id: Seq<u8>| v.ids_owned_by(owner).contains(id) == ids.to_set().contains(id) by {
        lemma_owned_ids_contains(v.proofs, owner, id);
        if ids.contains(id) {
            let i = choose|i: int|
                0 <= i < v.proofs.len() && #[trigger] v.proofs[i].0 == owner
                    && v.proofs[i].1.proof_id == id;
            lemma_index_of(v, i);
        }
        if v.owner_of(id) == Some(owner) {
            let i = v.index_of(id);
            assert(v.proofs[i].0 == owner && v.proofs[i].1.proof_id == id);
        }
    }
    assert(v.ids_owned_by(owner) =~= ids.to_set());
    lemma_owned_ids_no_duplicates(v.proofs, owner);
    ids.unique_seq_to_set();
    assert(v.counter(owner) == ids.len());
}

/// Repeating a successful update with the same arguments changes nothing more:
/// the owner is kept, so the repeat is authorized too, and it leaves the state
/// as the first update left it.
pub proof fn update_is_idempotent(
    v: RegistryView,
    proof_id: Seq<u8>,
    new_proof_text: Seq<u8>,
    new_metadata: Option<Seq<u8>>,
)
    requires
        v.wf(),
        v.has_id(proof_id),
        valid_text_len(new_proof_text.len()),
    ensures
        ({
            let w = v.updated(proof_id, new_proof_text, new_metadata);
            &&& w.wf()
            &&& w.owner_of(proof_id) == v.owner_of(proof_id)
            &&& w.updated(proof_id, new_proof_text, new_metadata) == w
        }),
{
    let w = v.updated(proof_id, new_proof_text, new_metadata);
    let k = v.index_of(proof_id);
    lemma_updated_wf(v, proof_id, new_proof_text, new_metadata);
    lemma_index_of(v, k);
    lemma_index_of(w, k);
    let u = w.updated(proof_id, new_proof_text, new_metadata);
    assert(u.proofs =~= w.proofs);
}

} // verus!
