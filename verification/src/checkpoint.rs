//! Checkpoints: time-stamped records, and the two ways of addressing them.

use vstd::prelude::*;

use crate::project::ProjectId;

verus! {

/// One time-stamped record: a message and an optional project reference.
/// The timestamp itself is the key under which the store holds the
/// checkpoint; it is not repeated here.
#[derive(Clone, Debug)]
pub struct Checkpoint {
    pub message: String,
    pub project_id: ProjectId,
}

/// The mathematical value of a [`Checkpoint`].
#[verifier::ext_equal]
pub ghost struct CheckpointView {
    pub message: Seq<char>,
    pub project_id: ProjectId,
}

impl View for Checkpoint {
    type V = CheckpointView;

    open spec fn view(&self) -> CheckpointView {
        CheckpointView { message: self.message@, project_id: self.project_id }
    }
}

/// An address for a checkpoint: either its absolute Unix timestamp or its
/// 0-based position counting from the most recent checkpoint backwards.
/// A position is not a stable key: any insertion or removal that changes
/// the ordering invalidates it.
#[derive(Clone, Copy, Debug, PartialEq, Eq, Structural)]
pub enum CheckpointId {
    Timestamp(i64),
    Position(usize),
}

/// A computed, read-only presentation of one checkpoint: the record itself
/// together with its timestamp, its position, and the elapsed time since
/// its chronological predecessor (`None` for the oldest checkpoint).
#[derive(Clone, Debug)]
pub struct LogCheckpoint {
    pub timestamp: i64,
    pub checkpoint: Checkpoint,
    pub duration: Option<i64>,
    pub position: usize,
}

} // verus!
