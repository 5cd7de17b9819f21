//! A proof certification registry: caller-submitted proofs filed under globally
//! unique ids, indexed per owner, updatable only by their owner, with per-owner
//! and global counters kept consistent.
mod bytes;
pub mod laws;
pub mod model;
pub mod registry;
pub mod types;

pub use registry::OnChainProof;
pub use types::{ProofData, ProofError, ProofEvent};
