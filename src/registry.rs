use vstd::prelude::*;

use crate::bytes::{bytes_equal, copy_bytes};
use crate::model::{
    counter_index, lemma_certified_wf, lemma_counter_index, lemma_counter_index_absent,
    lemma_counter_le_sum, lemma_index_of, lemma_owned_ids_no_duplicates, lemma_updated_wf,
    owned_ids, owned_records, RegistryView,
};
use crate::types::{
    opt_bytes_view, opt_data_view, valid_text_len, ProofData, ProofError, ProofEvent,
    ProofEventView, MAX_TEXT_LEN, MIN_TEXT_LEN,
};

verus! {

/// A stored proof together with the identity that certified it.
struct StoredProof {
    owner: Vec<u8>,
    data: ProofData,
}

/// How many proofs one owner has certified.
struct UserCounter {
    owner: Vec<u8>,
    count: u64,
}

/// The proof certification registry.
///
/// Proofs are kept in creation order; each owner's proofs are listed in that
/// order. The caller identity and the clock belong to the host, which passes them
/// into each mutating call, and publishes the event that a successful call returns.
pub struct OnChainProof {
    proofs: Vec<StoredProof>,
    counters: Vec<UserCounter>,
    total: u64,
}

impl View for OnChainProof {
    type V = RegistryView;

    closed spec fn view(&self) -> RegistryView {
        RegistryView {
            proofs: self.proofs@.map_values(|p: StoredProof| (p.owner@, p.data@)),
            counters: self.counters@.map_values(|c: UserCounter| (c.owner@, c.count)),
            total: self.total,
        }
    }
}

impl OnChainProof {
    /// An empty registry.
    pub fn init() -> (r: OnChainProof)
        ensures
            r@ == RegistryView::empty(),
            r@.wf(),
    {
        let r = OnChainProof { proofs: Vec::new(), counters: Vec::new(), total: 0 };
        assert(r@.proofs =~= Seq::empty());
        assert(r@.counters =~= Seq::empty());
        r
    }

    /// Where the proof with id `proof_id` is stored.
    fn find_proof(&self, proof_id: &Vec<u8>) -> (r: Option<usize>)
        requires
            self@.wf(),
        ensures
            match r {
                Some(i) => i < self@.proofs.len() && self@.has_id(proof_id@) && self@.index_of(
                    proof_id@,
                ) == i,
                None => !self@.has_id(proof_id@),
            },
    {
        let mut i: usize = 0;
        while i < self.proofs.len()
            invariant
                self@.wf(),
                i <= self.proofs.len(),
                self@.proofs.len() == self.proofs.len(),
                forall|j: int| 0 <= j < i ==> #[trigger] self@.proofs[j].1.proof_id != proof_id@,
            decreases self.proofs.len() - i,
        {
            assert(self@.proofs[i as int].1.proof_id == self.proofs[i as int].data.proof_id@);
            if bytes_equal(&self.proofs[i].data.proof_id, proof_id) {
                proof {
                    lemma_index_of(self@, i as int);
                }
                return Some(i);
            }
            i = i + 1;
        }
        None
    }

    /// Where the counter of `owner` is stored.
    fn find_counter(&self, owner: &Vec<u8>) -> (r: Option<usize>)
        requires
            self@.wf(),
        ensures
            match r {
                Some(k) => k < self@.counters.len() && counter_index(self@.counters, owner@)
                    == k,
                None => counter_index(self@.counters, owner@) == -1,
            },
    {
        let mut k: usize = 0;
        while k < self.counters.len()
            invariant
                self@.wf(),
                k <= self.counters.len(),
                self@.counters.len() == self.counters.len(),
                forall|j: int| 0 <= j < k ==> #[trigger] self@.counters[j].0 != owner@,
            decreases self.counters.len() - k,
        {
            assert(self@.counters[k as int].0 == self.counters[k as int].owner@);
            if bytes_equal(&self.counters[k].owner, owner) {
                proof {
                    lemma_counter_index(self@.counters, k as int);
                }
                return Some(k);
            }
            k = k + 1;
        }
        proof {
            lemma_counter_index_absent(self@.counters, owner@);
        }
        None
    }

    /// Certifies a new proof under `proof_id`, owned by `caller`, stamped with
    /// `timestamp`; absent metadata is stored as empty.
    ///
    /// An id that is already registered is refused with `DuplicateId` (whoever
    /// the caller is); otherwise a text outside 1..=500 bytes is refused with
    /// `InvalidLength`. A refused call changes nothing. The global counter must
    /// have room for one more proof.
    pub fn certify_action(
        &mut self,
        caller: &Vec<u8>,
        timestamp: u64,
        proof_text: Vec<u8>,
        proof_id: Vec<u8>,
        metadata: Option<Vec<u8>>,
    ) -> (r: Result<ProofEvent, ProofError>)
        requires
            old(self)@.wf(),
            old(self)@.total < u64::MAX,
        ensures
            final(self)@.wf(),
            old(self)@.has_id(proof_id@) ==> r == Err::<ProofEvent, ProofError>(
                ProofError::DuplicateId,
            ),
            !old(self)@.has_id(proof_id@) && !valid_text_len(proof_text@.len()) ==> r == Err::<
                ProofEvent,
                ProofError,
            >(ProofError::InvalidLength),
            !old(self)@.has_id(proof_id@) && valid_text_len(proof_text@.len()) ==> r is Ok,
            r is Err ==> final(self)@ == old(self)@,
            r is Ok ==> final(self)@ == old(self)@.certified(
                caller@,
                timestamp,
                proof_text@,
                proof_id@,
                opt_bytes_view(metadata),
            ),
            r matches Ok(e) ==> e@ == (ProofEventView::ProofCertified {
                owner: caller@,
                proof_id: proof_id@,
                proof_text: proof_text@,
                timestamp,
            }),
    {
        if self.find_proof(&proof_id).is_some() {
            return Err(ProofError::DuplicateId);
        }
        if proof_text.len() < MIN_TEXT_LEN || proof_text.len() > MAX_TEXT_LEN {
            return Err(ProofError::InvalidLength);
        }
        let ghost old_v = self@;
        let ghost meta_v = opt_bytes_view(metadata);
        let stored_metadata = match metadata {
            Some(m) => m,
            None => Vec::new(),
        };
        assert(stored_metadata@ == (match meta_v {
            Some(m) => m,
            None => Seq::<u8>::empty(),
        }));
        match self.find_counter(caller) {
            Some(k) => {
                proof {
                    lemma_counter_le_sum(old_v.counters, k as int);
                }
                let count = self.counters[k].count + 1;
                self.counters.set(k, UserCounter { owner: copy_bytes(caller), count });
                assert(self@.counters =~= old_v.counters.update(k as int, (caller@, count)));
            },
            None => {
                self.counters.push(UserCounter { owner: copy_bytes(caller), count: 1 });
                assert(self@.counters =~= old_v.counters.push((caller@, 1u64)));
            },
        }
        let data = ProofData {
            proof_text: copy_bytes(&proof_text),
            timestamp,
            proof_id: copy_bytes(&proof_id),
            metadata: stored_metadata,
        };
        self.proofs.push(StoredProof { owner: copy_bytes(caller), data });
        self.total = self.total + 1;
        proof {
            let w = old_v.certified(caller@, timestamp, proof_text@, proof_id@, meta_v);
            assert(self@.proofs =~= w.proofs);
            assert(self@ == w);
            lemma_certified_wf(old_v, caller@, timestamp, proof_text@, proof_id@, meta_v);
        }
        Ok(ProofEvent::ProofCertified { owner: copy_bytes(caller), proof_id, proof_text, timestamp })
    }

    /// Replaces the text of the proof `proof_id`, and its metadata when
    /// `new_metadata` is given; the timestamp, the owner and the counters stay.
    ///
    /// A caller that is not the registered owner of `proof_id` (including any
    /// caller when the id is not registered) is refused with `Unauthorized`;
    /// otherwise a text outside 1..=500 bytes is refused with `InvalidLength`.
    /// A refused call changes nothing.
    pub fn update_proof(
        &mut self,
        caller: &Vec<u8>,
        proof_id: &Vec<u8>,
        new_proof_text: Vec<u8>,
        new_metadata: Option<Vec<u8>>,
    ) -> (r: Result<ProofEvent, ProofError>)
        requires
            old(self)@.wf(),
        ensures
            final(self)@.wf(),
            old(self)@.owner_of(proof_id@) != Some(caller@) ==> r == Err::<ProofEvent, ProofError>(
                ProofError::Unauthorized,
            ),
            old(self)@.owner_of(proof_id@) == Some(caller@) && !valid_text_len(new_proof_text@.len())
                ==> r == Err::<ProofEvent, ProofError>(ProofError::InvalidLength),
            old(self)@.owner_of(proof_id@) == Some(caller@) && valid_text_len(new_proof_text@.len())
                ==> r is Ok,
            r is Err ==> final(self)@ == old(self)@,
            r is Ok ==> final(self)@ == old(self)@.updated(
                proof_id@,
                new_proof_text@,
                opt_bytes_view(new_metadata),
            ),
            r matches Ok(e) ==> e@ == (ProofEventView::ProofUpdated {
                owner: caller@,
                proof_id: proof_id@,
                new_proof_text: new_proof_text@,
            }),
    {
        let i = match self.find_proof(proof_id) {
            Some(i) => i,
            None => {
                return Err(ProofError::Unauthorized);
            },
        };
        if !bytes_equal(&self.proofs[i].owner, caller) {
            return Err(ProofError::Unauthorized);
        }
        if new_proof_text.len() < MIN_TEXT_LEN || new_proof_text.len() > MAX_TEXT_LEN {
            return Err(ProofError::InvalidLength);
        }
        let ghost old_v = self@;
        let ghost meta_v = opt_bytes_view(new_metadata);
        let old_data = &self.proofs[i].data;
        let metadata = match new_metadata {
            Some(m) => m,
            None => copy_bytes(&old_data.metadata),
        };
        let data = ProofData {
            proof_text: copy_bytes(&new_proof_text),
            timestamp: old_data.timestamp,
            proof_id: copy_bytes(&old_data.proof_id),
            metadata,
        };
        let owner = copy_bytes(&self.proofs[i].owner);
        self.proofs.set(i, StoredProof { owner, data });
        proof {
            let w = old_v.updated(proof_id@, new_proof_text@, meta_v);
            assert(self@.proofs =~= w.proofs);
            assert(self@ == w);
            lemma_updated_wf(old_v, proof_id@, new_proof_text@, meta_v);
        }
        Ok(ProofEvent::ProofUpdated { owner: copy_bytes(caller), proof_id: copy_bytes(proof_id), new_proof_text })
    }

    /// The record stored under (`user`, `proof_id`), or `None` when there is none.
    pub fn get_proof(&self, user: &Vec<u8>, proof_id: &Vec<u8>) -> (r: Option<ProofData>)
        requires
            self@.wf(),
        ensures
            opt_data_view(r) == self@.record(user@, proof_id@),
            r matches Some(d) ==> d@.proof_id == proof_id@ && valid_text_len(
                d@.proof_text.len(),
            ),
    {
        match self.find_proof(proof_id) {
            Some(i) => {
                assert(self@.proofs[i as int].1.proof_id == proof_id@);
                assert(valid_text_len(self@.proofs[i as int].1.proof_text.len()));
                if bytes_equal(&self.proofs[i].owner, user) {
                    Some(self.proofs[i].data.copy())
                } else {
                    None
                }
            },
            None => None,
        }
    }

    /// All records owned by `user`, in the order they were certified.
    pub fn get_user_proofs(&self, user: &Vec<u8>) -> (r: Vec<ProofData>)
        requires
            self@.wf(),
        ensures
            r@.map_values(|d: ProofData| d@) == owned_records(self@.proofs, user@),
    {
        let mut r: Vec<ProofData> = Vec::new();
        let mut i: usize = 0;
        while i < self.proofs.len()
            invariant
                i <= self.proofs.len(),
                self@.proofs.len() == self.proofs.len(),
                r@.map_values(|d: ProofData| d@) == owned_records(
                    self@.proofs.subrange(0, i as int),
                    user@,
                ),
            decreases self.proofs.len() - i,
        {
            let ghost prefix = self@.proofs.subrange(0, i as int);
            assert(self@.proofs.subrange(0, i + 1).drop_last() =~= prefix);
            assert(self@.proofs[i as int] == (self.proofs[i as int].owner@, self.proofs[i as int].data@));
            if bytes_equal(&self.proofs[i].owner, user) {
                let ghost before = r@;
                r.push(self.proofs[i].data.copy());
                assert(r@.map_values(|d: ProofData| d@) =~= before.map_values(|d: ProofData| d@).push(
                    self@.proofs[i as int].1,
                ));
            }
            i = i + 1;
        }
        assert(self@.proofs.subrange(0, i as int) =~= self@.proofs);
        r
    }

    /// The ids of all proofs owned by `user`, in the order they were certified.
    pub fn get_user_proof_ids(&self, user: &Vec<u8>) -> (r: Vec<Vec<u8>>)
        requires
            self@.wf(),
        ensures
            r@.map_values(|b: Vec<u8>| b@) == owned_ids(self@.proofs, user@),
            r@.map_values(|b: Vec<u8>| b@).no_duplicates(),
    {
        proof {
            lemma_owned_ids_no_duplicates(self@.proofs, user@);
        }
        let mut r: Vec<Vec<u8>> = Vec::new();
        let mut i: usize = 0;
        while i < self.proofs.len()
            invariant
                i <= self.proofs.len(),
                self@.proofs.len() == self.proofs.len(),
                r@.map_values(|b: Vec<u8>| b@) == owned_ids(
                    self@.proofs.subrange(0, i as int),
                    user@,
                ),
            decreases self.proofs.len() - i,
        {
            let ghost prefix = self@.proofs.subrange(0, i as int);
            assert(self@.proofs.subrange(0, i + 1).drop_last() =~= prefix);
            assert(self@.proofs[i as int] == (self.proofs[i as int].owner@, self.proofs[i as int].data@));
            if bytes_equal(&self.proofs[i].owner, user) {
                let ghost before = r@;
                r.push(copy_bytes(&self.proofs[i].data.proof_id));
                assert(r@.map_values(|b: Vec<u8>| b@) =~= before.map_values(|b: Vec<u8>| b@).push(
                    self@.proofs[i as int].1.proof_id,
                ));
            }
            i = i + 1;
        }
        assert(self@.proofs.subrange(0, i as int) =~= self@.proofs);
        r
    }

    /// The owner of `proof_id`, or `None` when it is not registered.
    pub fn get_proof_owner(&self, proof_id: &Vec<u8>) -> (r: Option<Vec<u8>>)
        requires
            self@.wf(),
        ensures
            opt_bytes_view(r) == self@.owner_of(proof_id@),
    {
        match self.find_proof(proof_id) {
            Some(i) => Some(copy_bytes(&self.proofs[i].owner)),
            None => None,
        }
    }

    /// The per-owner counter of `user`: how many proofs it has certified.
    pub fn get_user_proof_count(&self, user: &Vec<u8>) -> (r: u64)
        requires
            self@.wf(),
        ensures
            r == self@.counter(user@),
            r == owned_records(self@.proofs, user@).len(),
    {
        proof {
            assert(self@.counter(user@) == owned_records(self@.proofs, user@).len());
        }
        match self.find_counter(user) {
            Some(k) => self.counters[k].count,
            None => 0,
        }
    }

    /// The global counter: how many proofs have been certified.
    pub fn get_total_proofs(&self) -> (r: u64)
        requires
            self@.wf(),
        ensures
            r == self@.total,
            r == self@.proofs.len(),
    {
        self.total
    }

    /// Whether `proof_id` is registered.
    pub fn proof_exists(&self, proof_id: &Vec<u8>) -> (r: bool)
        requires
            self@.wf(),
        ensures
            r == self@.has_id(proof_id@),
    {
        self.find_proof(proof_id).is_some()
    }
}

} // verus!
