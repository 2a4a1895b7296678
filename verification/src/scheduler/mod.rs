//! The acquisition scheduler: signatures first, then payloads under a bounded window.

pub mod batch;
pub mod laws;
pub mod model;
pub mod proofs;

pub use self::batch::{max_parallel, Batch, BatchError, TransferResult};
pub use self::model::{Action, ArtifactError, Event, SignatureStage, Stage};
