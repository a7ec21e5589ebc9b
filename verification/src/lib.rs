//! An in-memory, timestamp-indexed record store for personal logs.
//!
//! A [`CheckpointDb`] holds time-stamped checkpoints, each optionally tied to
//! one project from a registry of named projects. Checkpoints are addressed
//! either by their absolute timestamp or by their reverse-chronological
//! position, and the store maintains referential integrity between
//! checkpoints and the projects they reference.
//!
//! The contracts are stated over the model in [`model`]: the registry as a
//! sequence of `(id, project)` pairs in ascending id order and the
//! checkpoint map as a sequence of `(timestamp, checkpoint)` pairs in
//! ascending timestamp order. Laws relating several operations — the
//! persistence round trip, last-write-wins overwriting, and the agreement
//! of the two addressing modes — are proved in [`laws`].

pub mod checkpoint;
pub mod entries;
pub mod error;
pub mod laws;
pub mod log;
pub mod model;
pub mod persist;
pub mod project;
pub mod registry;
pub mod resolve;
pub mod store;

pub use checkpoint::Checkpoint;
pub use checkpoint::CheckpointId;
pub use checkpoint::CheckpointView;
pub use checkpoint::LogCheckpoint;
pub use error::CheckpointDbError;
pub use error::ErrorKind;
pub use log::valid_log_record;
pub use project::Project;
pub use project::ProjectId;
pub use project::ProjectView;
pub use store::CheckpointDb;
