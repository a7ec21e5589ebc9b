//! The checkpoint map operations: adding, removing, reading and retagging
//! checkpoints.

use vstd::prelude::*;

use crate::checkpoint::{Checkpoint, CheckpointId, CheckpointView};
use crate::error::{CheckpointDbError, ErrorKind};
use crate::model::{
    cp_has, cp_idx, cp_insert_pos, cp_is_insert_pos, cp_put, lemma_cp_idx_unique,
    lemma_cp_insert_pos_unique, lemma_resolved_timestamp_present, lemma_wf_after_cp_insert,
    lemma_wf_after_cp_remove, lemma_wf_after_cp_update, pid_valid, spec_to_timestamp,
};
use crate::project::ProjectId;
use crate::store::CheckpointDb;

verus! {

impl CheckpointDb {
    /// Stores a checkpoint under `time`. The timestamp is the sole key:
    /// when a checkpoint already sits under `time` it is replaced in full.
    ///
    /// Fails with `InvalidInput`, leaving the store unchanged, when the
    /// given project id is not registered.
    pub fn add_checkpoint(&mut self, time: i64, message: &str, project_id: ProjectId) -> (r:
        Result<(), CheckpointDbError>)
        requires
            old(self).wf(),
        ensures
            final(self).wf(),
            final(self).spec_projects() == old(self).spec_projects(),
            r is Ok <==> pid_valid(old(self).spec_projects(), project_id),
            r matches Err(e) ==> e.error_kind == ErrorKind::InvalidInput && final(self).spec_checkpoints() == old(self).spec_checkpoints(),
            r is Ok ==> final(self).spec_checkpoints() == cp_put(
                old(self).spec_checkpoints(),
                time,
                CheckpointView { message: message@, project_id },
            ),
    {
        if let ProjectId::Id(p) = project_id {
            if self.find_project(p).is_none() {
                return Err(
                    CheckpointDbError {
                        error_kind: ErrorKind::InvalidInput,
                        message: "the given project id does not exist".to_owned(),
                    },
                );
            }
        }
        let ghost cs = old(self).spec_checkpoints();
        let n = self.checkpoint_count();
        let mut j: usize = 0;
        while j < n && self.cp_at(j).0 < time
            invariant
                j <= n,
                n == cs.len(),
                cs == self.spec_checkpoints(),
                cs == old(self).spec_checkpoints(),
                forall|i: int| 0 <= i < j ==> cs[i].0 < time,
            decreases n - j,
        {
            j += 1;
        }
        let cp = Checkpoint { message: message.to_owned(), project_id };
        let ghost cv = cp@;
        if j < n && self.cp_at(j).0 == time {
            proof {
                lemma_cp_idx_unique(cs, time, j as int);
                lemma_wf_after_cp_update(
                    old(self).spec_projects(),
                    cs,
                    j as int,
                    time,
                    cv,
                );
            }
            self.cp_set_at(j, time, cp);
        } else {
            proof {
                assert forall|i: int| j <= i < cs.len() implies cs[i].0 > time by {
                    assert(cs[j as int].0 != time);
                    assert(cs[j as int].0 >= time);
                    if i > j {
                        assert(cs[j as int].0 < cs[i].0);
                    }
                }
                assert(cp_is_insert_pos(cs, time, j as int));
                lemma_cp_insert_pos_unique(cs, time, j as int);
                assert(!cp_has(cs, time));
                lemma_wf_after_cp_insert(
                    old(self).spec_projects(),
                    cs,
                    j as int,
                    time,
                    cv,
                );
            }
            self.cp_insert_at(j, time, cp);
        }
        Ok(())
    }

    /// Removes and returns the checkpoint the given address resolves to;
    /// `None`, with the store unchanged, when it does not resolve.
    pub fn remove_checkpoint(&mut self, checkpoint_id: &CheckpointId) -> (r: Option<Checkpoint>)
        requires
            old(self).wf(),
        ensures
            final(self).wf(),
            final(self).spec_projects() == old(self).spec_projects(),
            match spec_to_timestamp(old(self).spec_checkpoints(), *checkpoint_id) {
                Some(t) => {
                    let cs = old(self).spec_checkpoints();
                    r matches Some(c) && c@ == cs[cp_idx(cs, t)].1 && final(self).spec_checkpoints() == cs.remove(cp_idx(cs, t))
                },
                None => r is None && final(self).spec_checkpoints() == old(
                    self,
                ).spec_checkpoints(),
            },
    {
        let ghost cs = old(self).spec_checkpoints();
        let timestamp = checkpoint_id.to_timestamp(self);
        if let Some(t) = timestamp {
            proof {
                lemma_resolved_timestamp_present(cs, *checkpoint_id, t);
            }
            match self.find_checkpoint(t) {
                Some(i) => {
                    proof {
                        lemma_cp_idx_unique(cs, t, i as int);
                        lemma_wf_after_cp_remove(old(self).spec_projects(), cs, i as int);
                    }
                    let (_, c) = self.cp_remove_at(i);
                    Some(c)
                },
                None => unreached(),
            }
        } else {
            None
        }
    }

    /// A shared reference to the checkpoint the given address resolves to.
    pub fn get_checkpoint(&self, checkpoint_id: &CheckpointId) -> (r: Option<&Checkpoint>)
        requires
            self.wf(),
        ensures
            match spec_to_timestamp(self.spec_checkpoints(), *checkpoint_id) {
                Some(t) => {
                    let cs = self.spec_checkpoints();
                    r matches Some(c) && c@ == cs[cp_idx(cs, t)].1
                },
                None => r is None,
            },
    {
        let ghost cs = self.spec_checkpoints();
        match checkpoint_id.to_timestamp(self) {
            Some(t) => {
                proof {
                    lemma_resolved_timestamp_present(cs, *checkpoint_id, t);
                }
                match self.find_checkpoint(t) {
                    Some(i) => {
                        proof {
                            lemma_cp_idx_unique(cs, t, i as int);
                        }
                        Some(&self.cp_at(i).1)
                    },
                    None => unreached(),
                }
            },
            None => None,
        }
    }

    /// A mutable reference to the checkpoint the given address resolves
    /// to. The handle can change the record's message and project
    /// reference; the store invariant is kept whenever the project
    /// reference left behind is valid (in particular whenever only the
    /// message is touched).
    pub fn get_checkpoint_mut(&mut self, checkpoint_id: &CheckpointId) -> (r: Option<
        &mut Checkpoint,
    >)
        requires
            old(self).wf(),
        ensures
            match spec_to_timestamp(old(self).spec_checkpoints(), *checkpoint_id) {
                Some(t) => {
                    let cs = old(self).spec_checkpoints();
                    r matches Some(c) && (*c)@ == cs[cp_idx(cs, t)].1 && final(self).spec_projects() == old(self).spec_projects() && final(self).spec_checkpoints() == cs.update(cp_idx(cs, t), (t, (*final(c))@)) && (
                    pid_valid(old(self).spec_projects(), (*final(c))@.project_id) ==> final(self).wf())
                },
                None => r is None && *final(self) == *old(self),
            },
    {
        let ghost cs = old(self).spec_checkpoints();
        match checkpoint_id.to_timestamp(self) {
            Some(t) => {
                proof {
                    lemma_resolved_timestamp_present(cs, *checkpoint_id, t);
                }
                match self.find_checkpoint(t) {
                    Some(i) => {
                        proof {
                            lemma_cp_idx_unique(cs, t, i as int);
                        }
                        proof {
                            assert forall|cv: CheckpointView|
                                pid_valid(
                                    old(self).spec_projects(),
                                    cv.project_id,
                                ) implies crate::model::parts_valid(
                                old(self).spec_projects(),
                                #[trigger] cs.update(cp_idx(cs, t), (t, cv)),
                            ) by {
                                lemma_wf_after_cp_update(
                                    old(self).spec_projects(),
                                    cs,
                                    cp_idx(cs, t),
                                    t,
                                    cv,
                                );
                            }
                        }
                        let c = self.cp_value_mut(i);
                        Some(c)
                    },
                    None => unreached(),
                }
            },
            None => None,
        }
    }

    /// Points the checkpoint the given address resolves to at another
    /// project (or at none); its message is untouched.
    ///
    /// Fails with `InvalidInput`, leaving the store unchanged, when the
    /// project id is not registered or the address does not resolve.
    pub fn set_checkpoint_project(&mut self, checkpoint_id: CheckpointId, project_id: ProjectId)
        -> (r: Result<(), CheckpointDbError>)
        requires
            old(self).wf(),
        ensures
            final(self).wf(),
            final(self).spec_projects() == old(self).spec_projects(),
            r is Ok <==> (pid_valid(old(self).spec_projects(), project_id) && spec_to_timestamp(
                old(self).spec_checkpoints(),
                checkpoint_id,
            ) is Some),
            r matches Err(e) ==> e.error_kind == ErrorKind::InvalidInput && final(self).spec_checkpoints() == old(self).spec_checkpoints(),
            r is Ok ==> ({
                let cs = old(self).spec_checkpoints();
                let t = spec_to_timestamp(cs, checkpoint_id)->Some_0;
                let i = cp_idx(cs, t);
                final(self).spec_checkpoints() == cs.update(
                    i,
                    (t, CheckpointView { message: cs[i].1.message, project_id }),
                )
            }),
    {
        if let ProjectId::Id(p) = project_id {
            if self.find_project(p).is_none() {
                return Err(
                    CheckpointDbError {
                        error_kind: ErrorKind::InvalidInput,
                        message: "could not find the given project_id".to_owned(),
                    },
                );
            }
        }
        let ghost cs = old(self).spec_checkpoints();
        let t = match checkpoint_id.to_timestamp(self) {
            Some(t) => t,
            None => {
                return Err(
                    CheckpointDbError {
                        error_kind: ErrorKind::InvalidInput,
                        message: "could not find the given checkpoint_id".to_owned(),
                    },
                );
            },
        };
        proof {
            lemma_resolved_timestamp_present(cs, checkpoint_id, t);
        }
        match self.find_checkpoint(t) {
            Some(i) => {
                proof {
                    lemma_cp_idx_unique(cs, t, i as int);
                }
                let msg = self.cp_at(i).1.message.clone();
                let cp = Checkpoint { message: msg, project_id };
                proof {
                    lemma_wf_after_cp_update(old(self).spec_projects(), cs, i as int, t, cp@);
                }
                self.cp_set_at(i, t, cp);
                Ok(())
            },
            None => unreached(),
        }
    }
}

} // verus!
