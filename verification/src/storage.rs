//! The interface of the persistence layer that keeps certified nodes across
//! restarts.

use crate::types::{CertifiedNode, Digest};
use vstd::prelude::*;

verus! {

/// A failure reported by the persistence layer.
#[derive(Clone, Debug, PartialEq, Eq)]
pub struct StorageError {
    pub message: String,
}

/// Durable storage of certified nodes. Nothing is assumed of an
/// implementation: every call may fail, and what it returns is taken as it
/// comes.
pub trait DagStorage {
    /// Records a node durably.
    fn save_certified_node(&self, node: &CertifiedNode) -> Result<(), StorageError>;

    /// All recorded nodes, each under its identifier.
    fn get_certified_nodes(&self) -> Result<Vec<(Digest, CertifiedNode)>, StorageError>;

    /// Forgets the nodes with the given identifiers.
    fn delete_certified_nodes(&self, digests: Vec<Digest>) -> Result<(), StorageError>;
}

} // verus!
