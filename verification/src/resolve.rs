//! Resolution between the two checkpoint addressing modes.
//!
//! A checkpoint can be addressed by its absolute timestamp or by its
//! reverse-chronological position. Both directions of the translation are
//! defined against one store snapshot, and they agree: resolving a present
//! timestamp to its position and that position back yields the same
//! timestamp (see [`crate::laws`]).

use vstd::prelude::*;

use crate::checkpoint::CheckpointId;
use crate::model::{lemma_cp_idx_unique, spec_to_position, spec_to_timestamp};
use crate::store::CheckpointDb;

verus! {

impl CheckpointId {
    /// Resolves this address to an absolute timestamp: the timestamp itself
    /// when a checkpoint is stored under it, or the timestamp at the given
    /// position; `None` when the address does not resolve.
    pub fn to_timestamp(&self, checkpoint_db: &CheckpointDb) -> (r: Option<i64>)
        requires
            checkpoint_db.wf(),
        ensures
            r == spec_to_timestamp(checkpoint_db.spec_checkpoints(), *self),
    {
        let ghost s = checkpoint_db.spec_checkpoints();
        match self {
            CheckpointId::Timestamp(t) => {
                match checkpoint_db.find_checkpoint(*t) {
                    Some(i) => {
                        proof {
                            lemma_cp_idx_unique(s, *t, i as int);
                        }
                        Some(*t)
                    },
                    None => None,
                }
            },
            CheckpointId::Position(pos) => {
                let n = checkpoint_db.checkpoint_count();
                if *pos < n {
                    Some(checkpoint_db.cp_at(n - 1 - *pos).0)
                } else {
                    None
                }
            },
        }
    }

    /// Resolves this address to a reverse-chronological position: the rank
    /// of the timestamp counting from the most recent checkpoint, or the
    /// position itself when it is in range; `None` when the address does
    /// not resolve.
    pub fn to_position(&self, checkpoint_db: &CheckpointDb) -> (r: Option<usize>)
        requires
            checkpoint_db.wf(),
        ensures
            r == spec_to_position(checkpoint_db.spec_checkpoints(), *self),
    {
        let ghost s = checkpoint_db.spec_checkpoints();
        match self {
            CheckpointId::Timestamp(t) => {
                match checkpoint_db.find_checkpoint(*t) {
                    Some(i) => {
                        proof {
                            lemma_cp_idx_unique(s, *t, i as int);
                        }
                        Some(checkpoint_db.checkpoint_count() - 1 - i)
                    },
                    None => None,
                }
            },
            CheckpointId::Position(pos) => {
                if *pos < checkpoint_db.checkpoint_count() {
                    Some(*pos)
                } else {
                    None
                }
            },
        }
    }

    /// Whether this address resolves to a stored checkpoint.
    pub fn resolves(&self, checkpoint_db: &CheckpointDb) -> (r: bool)
        requires
            checkpoint_db.wf(),
        ensures
            r == (spec_to_timestamp(checkpoint_db.spec_checkpoints(), *self) is Some),
    {
        self.to_timestamp(checkpoint_db).is_some()
    }
}

} // verus!
