use vstd::prelude::*;

use crate::bytes::copy_bytes;

verus! {

/// Shortest accepted proof text, in bytes.
pub const MIN_TEXT_LEN: usize = 1;

/// Longest accepted proof text, in bytes.
pub const MAX_TEXT_LEN: usize = 500;

/// Whether a proof text of `len` bytes may be stored.
pub open spec fn valid_text_len(len: nat) -> bool {
    MIN_TEXT_LEN <= len <= MAX_TEXT_LEN
}

/// One certified proof as it is stored under (owner, proof id).
#[derive(Clone, Debug, PartialEq, Eq)]
pub struct ProofData {
    pub proof_text: Vec<u8>,
    pub timestamp: u64,
    pub proof_id: Vec<u8>,
    pub metadata: Vec<u8>,
}

/// The mathematical value of a [`ProofData`].
pub ghost struct ProofDataView {
    pub proof_text: Seq<u8>,
    pub timestamp: u64,
    pub proof_id: Seq<u8>,
    pub metadata: Seq<u8>,
}

impl View for ProofData {
    type V = ProofDataView;

    open spec fn view(&self) -> ProofDataView {
        ProofDataView {
            proof_text: self.proof_text@,
            timestamp: self.timestamp,
            proof_id: self.proof_id@,
            metadata: self.metadata@,
        }
    }
}

impl ProofData {
    /// A field-by-field copy.
    pub fn copy(&self) -> (r: ProofData)
        ensures
            r@ == self@,
    {
        ProofData {
            proof_text: copy_bytes(&self.proof_text),
            timestamp: self.timestamp,
            proof_id: copy_bytes(&self.proof_id),
            metadata: copy_bytes(&self.metadata),
        }
    }
}

/// The view of an optional record.
pub open spec fn opt_data_view(o: Option<ProofData>) -> Option<ProofDataView> {
    match o {
        Some(d) => Some(d@),
        None => None,
    }
}

/// The view of an optional byte buffer.
pub open spec fn opt_bytes_view(o: Option<Vec<u8>>) -> Option<Seq<u8>> {
    match o {
        Some(b) => Some(b@),
        None => None,
    }
}

/// Why a mutating call was rejected.
#[derive(Clone, Copy, Debug, PartialEq, Eq, Structural)]
pub enum ProofError {
    /// The proof id is already registered.
    DuplicateId,
    /// The proof text is empty or longer than the maximum.
    InvalidLength,
    /// The caller is not the owner of the proof id, or the id is not registered.
    Unauthorized,
}

impl ProofError {
    /// The human-readable reason reported to the caller.
    pub fn message(&self) -> (r: &'static str)
        ensures
            *self == ProofError::DuplicateId ==> r@ == "Proof ID already exists"@,
            *self == ProofError::InvalidLength ==> r@
                == "Proof text must be between 1 and 500 characters"@,
            *self == ProofError::Unauthorized ==> r@ == "Only proof owner can update"@,
    {
        match self {
            ProofError::DuplicateId => "Proof ID already exists",
            ProofError::InvalidLength => "Proof text must be between 1 and 500 characters",
            ProofError::Unauthorized => "Only proof owner can update",
        }
    }
}

/// A notification produced by a successful mutating call, for the host to publish.
#[derive(Clone, Debug, PartialEq, Eq)]
pub enum ProofEvent {
    /// A new proof was certified.
    ProofCertified { owner: Vec<u8>, proof_id: Vec<u8>, proof_text: Vec<u8>, timestamp: u64 },
    /// The text (and possibly the metadata) of a proof was replaced.
    ProofUpdated { owner: Vec<u8>, proof_id: Vec<u8>, new_proof_text: Vec<u8> },
}

/// The mathematical value of a [`ProofEvent`].
pub ghost enum ProofEventView {
    ProofCertified { owner: Seq<u8>, proof_id: Seq<u8>, proof_text: Seq<u8>, timestamp: u64 },
    ProofUpdated { owner: Seq<u8>, proof_id: Seq<u8>, new_proof_text: Seq<u8> },
}

impl View for ProofEvent {
    type V = ProofEventView;

    open spec fn view(&self) -> ProofEventView {
        match self {
            ProofEvent::ProofCertified { owner, proof_id, proof_text, timestamp } => {
                ProofEventView::ProofCertified {
                    owner: owner@,
                    proof_id: proof_id@,
                    proof_text: proof_text@,
                    timestamp: *timestamp,
                }
            },
            ProofEvent::ProofUpdated { owner, proof_id, new_proof_text } => {
                ProofEventView::ProofUpdated {
                    owner: owner@,
                    proof_id: proof_id@,
                    new_proof_text: new_proof_text@,
                }
            },
        }
    }
}

} // verus!
