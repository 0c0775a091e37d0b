//! A round-indexed store of certified DAG nodes for one epoch of a
//! round-based consensus protocol, with verified admission rules,
//! existence and quorum queries, and a forward-only status lifecycle.

pub mod types;
pub mod status;
pub mod validators;
pub mod storage;
pub mod model;
pub mod dag_store;
pub mod laws;

pub use crate::dag_store::Dag;
pub use crate::model::DagError;
pub use crate::status::{NodeStatus, StatusTag};
pub use crate::storage::{DagStorage, StorageError};
pub use crate::types::{Author, CertifiedNode, Digest, NodeCertificate, NodeMetadata, Round};
pub use crate::validators::{EpochState, ValidatorInfo, ValidatorVerifier, VerifyError};
