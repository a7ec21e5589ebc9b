//! The project registry: adding, removing and looking up projects.
//!
//! Short names are a unique key across the registry. Ids are allocated as
//! the smallest non-negative integer not currently in use, so an id freed
//! by a removal can be handed out again. Removing a project cascades into
//! the checkpoint map: every checkpoint that referenced it is reset to the
//! explicit "no project" marker.

use vstd::prelude::*;

use crate::checkpoint::{Checkpoint, CheckpointView};
use crate::error::{CheckpointDbError, ErrorKind};
use crate::model::{
    cps_sorted, lemma_prj_idx_unique, pid_valid, prj_has, prj_has_short, prj_idx,
    prj_shorts_unique, prjs_sorted,
};
use crate::project::{Project, ProjectId, ProjectView};
use crate::store::CheckpointDb;

verus! {

impl CheckpointDb {
    /// Registers a new project under the smallest unused id.
    ///
    /// Fails with `InvalidInput` when either name is empty and with
    /// `AlreadyExists` when the short name is already registered; on
    /// failure the store is unchanged.
    pub fn add_project(&mut self, long_name: &str, short_name: &str) -> (r: Result<
        ProjectId,
        CheckpointDbError,
    >)
        requires
            old(self).wf(),
            old(self).spec_projects().len() <= u16::MAX,
        ensures
            final(self).wf(),
            final(self).spec_checkpoints() == old(self).spec_checkpoints(),
            r is Err <==> (short_name@.len() == 0 || long_name@.len() == 0 || prj_has_short(
                old(self).spec_projects(),
                short_name@,
            )),
            r is Err ==> final(self).spec_projects() == old(self).spec_projects(),
            r matches Err(e) ==> e.error_kind == (if short_name@.len() == 0 || long_name@.len()
                == 0 {
                ErrorKind::InvalidInput
            } else {
                ErrorKind::AlreadyExists
            }),
            r matches Ok(pid) ==> (pid matches ProjectId::Id(k) && {
                &&& !prj_has(old(self).spec_projects(), k)
                &&& forall|q: u16| q < k ==> prj_has(old(self).spec_projects(), q)
                &&& final(self).spec_projects() == old(self).spec_projects().insert(
                    k as int,
                    (k, ProjectView { long_name: long_name@, short_name: short_name@ }),
                )
            }),
    {
        if short_name.is_empty() {
            return Err(
                CheckpointDbError {
                    error_kind: ErrorKind::InvalidInput,
                    message: "You need to have a short name for the project".to_owned(),
                },
            );
        }
        if long_name.is_empty() {
            return Err(
                CheckpointDbError {
                    error_kind: ErrorKind::InvalidInput,
                    message: "You need to have a long name for the project".to_owned(),
                },
            );
        }
        if self.find_project_by_short(short_name).is_some() {
            return Err(
                CheckpointDbError {
                    error_kind: ErrorKind::AlreadyExists,
                    message: "A project with this short name already exists".to_owned(),
                },
            );
        }
        let ghost ps = old(self).spec_projects();
        let n = self.project_count();
        // The smallest unused id: with ids ascending and distinct, it sits
        // at the first index whose id differs from the index itself.
        let mut i: usize = 0;
        while i < n && self.prj_at(i).0 == i as u16
            invariant
                i <= n,
                n == ps.len(),
                n <= u16::MAX,
                ps == self.spec_projects(),
                ps == old(self).spec_projects(),
                forall|j: int| 0 <= j < i ==> ps[j].0 as int == j,
            decreases n - i,
        {
            i += 1;
        }
        let k: u16 = i as u16;
        proof {
            assert forall|q: u16| q < k implies prj_has(ps, q) by {
                assert(ps[q as int].0 == q);
            }
            assert forall|m: int| 0 <= m < ps.len() implies ps[m].0 != k by {
                if m < i {
                    assert(ps[m].0 as int == m);
                } else {
                    assert(ps[i as int].0 as int != i);
                    if i > 0 {
                        assert(ps[i as int - 1].0 as int == i - 1);
                        assert(ps[i as int - 1].0 < ps[i as int].0);
                    }
                    assert(ps[i as int].0 as int > i);
                    if i < m {
                        assert(ps[i as int].0 < ps[m].0);
                    }
                }
            }
            assert(!prj_has(ps, k));
        }
        let prj = Project { long_name: long_name.to_owned(), short_name: short_name.to_owned() };
        self.prj_insert_at(i, k, prj);
        proof {
            let pv = ProjectView { long_name: long_name@, short_name: short_name@ };
            assert(forall|j: int| 0 <= j < k ==> ps[j].0 < k);
            assert forall|j: int| k <= j < ps.len() implies ps[j].0 > k by {
                assert(ps[i as int].0 as int != i);
                if i > 0 {
                    assert(ps[i as int - 1].0 as int == i - 1);
                    assert(ps[i as int - 1].0 < ps[i as int].0);
                }
                assert(ps[i as int].0 as int > i);
                if j > i {
                    assert(ps[i as int].0 < ps[j].0);
                }
            }
            lemma_wf_after_project_insert(
                ps,
                old(self).spec_checkpoints(),
                k as int,
                (k, pv),
            );
        }
        Ok(ProjectId::Id(k))
    }

    /// Removes the project registered under the given id and cascades:
    /// every checkpoint that referenced it is reset to `NoId`.
    ///
    /// Fails with `InvalidInput`, leaving the store unchanged, when the id
    /// is the "no project" marker or is not registered.
    pub fn remove_project(&mut self, project_id: ProjectId) -> (r: Result<
        (),
        CheckpointDbError,
    >)
        requires
            old(self).wf(),
        ensures
            final(self).wf(),
            r is Ok <==> (project_id matches ProjectId::Id(p) && prj_has(
                old(self).spec_projects(),
                p,
            )),
            r matches Err(e) ==> e.error_kind == ErrorKind::InvalidInput && final(self).spec_projects()
                == old(self).spec_projects() && final(self).spec_checkpoints() == old(
                self,
            ).spec_checkpoints(),
            r is Ok ==> (project_id matches ProjectId::Id(p) && {
                &&& final(self).spec_projects() == old(self).spec_projects().remove(
                    prj_idx(old(self).spec_projects(), p),
                )
                &&& final(self).spec_checkpoints().len() == old(self).spec_checkpoints().len()
                &&& forall|i: int|
                    0 <= i < old(self).spec_checkpoints().len() ==> {
                        let was = #[trigger] old(self).spec_checkpoints()[i];
                        let now = final(self).spec_checkpoints()[i];
                        now.0 == was.0 && now.1.message == was.1.message && now.1.project_id == (
                        if was.1.project_id == ProjectId::Id(p) {
                            ProjectId::NoId
                        } else {
                            was.1.project_id
                        })
                    }
                &&& forall|i: int|
                    0 <= i < final(self).spec_checkpoints().len()
                        ==> #[trigger] final(self).spec_checkpoints()[i].1.project_id
                        != ProjectId::Id(p)
            }),
    {
        let p: u16 = match project_id {
            ProjectId::Id(p) => p,
            ProjectId::NoId => {
                return Err(
                    CheckpointDbError {
                        error_kind: ErrorKind::InvalidInput,
                        message: "That ProjectId does not exist".to_owned(),
                    },
                );
            },
        };
        let idx = match self.find_project(p) {
            Some(i) => i,
            None => {
                return Err(
                    CheckpointDbError {
                        error_kind: ErrorKind::InvalidInput,
                        message: "That ProjectId does not exist".to_owned(),
                    },
                );
            },
        };
        let ghost ps = old(self).spec_projects();
        let ghost cs = old(self).spec_checkpoints();
        proof {
            lemma_prj_idx_unique(ps, p, idx as int);
        }
        self.prj_remove_at(idx);
        // Cascade: strip the removed id from every checkpoint.
        let n = self.checkpoint_count();
        let mut j: usize = 0;
        while j < n
            invariant
                j <= n,
                n == self.spec_checkpoints().len(),
                n == cs.len(),
                self.spec_projects() == ps.remove(idx as int),
                forall|i: int|
                    0 <= i < j ==> {
                        let was = #[trigger] cs[i];
                        let now = self.spec_checkpoints()[i];
                        now.0 == was.0 && now.1.message == was.1.message && now.1.project_id == (
                        if was.1.project_id == ProjectId::Id(p) {
                            ProjectId::NoId
                        } else {
                            was.1.project_id
                        })
                    },
                forall|i: int| j <= i < n ==> #[trigger] self.spec_checkpoints()[i] == cs[i],
            decreases n - j,
        {
            if self.cp_at(j).1.project_id == ProjectId::Id(p) {
                let t = self.cp_at(j).0;
                let msg = self.cp_at(j).1.message.clone();
                self.cp_set_at(j, t, Checkpoint { message: msg, project_id: ProjectId::NoId });
            }
            j += 1;
        }
        proof {
            lemma_wf_after_cascade(ps, cs, idx as int, p, self.spec_checkpoints());
        }
        Ok(())
    }

    /// Looks up the id of the project carrying the given short name.
    pub fn project_id_from_short_name(&self, short_name: &str) -> (r: Option<ProjectId>)
        requires
            self.wf(),
        ensures
            match r {
                Some(pid) => pid matches ProjectId::Id(p) && prj_has(self.spec_projects(), p)
                    && self.spec_projects()[prj_idx(self.spec_projects(), p)].1.short_name
                    == short_name@,
                None => !prj_has_short(self.spec_projects(), short_name@),
            },
    {
        match self.find_project_by_short(short_name) {
            Some(i) => {
                let p = self.prj_at(i).0;
                proof {
                    lemma_prj_idx_unique(self.spec_projects(), p, i as int);
                }
                Some(ProjectId::Id(p))
            },
            None => None,
        }
    }

    /// Looks up the project registered under the given id; `None` for the
    /// "no project" marker and for an id that is not registered.
    pub fn project_from_project_id(&self, project_id: ProjectId) -> (r: Option<&Project>)
        requires
            self.wf(),
        ensures
            match project_id {
                ProjectId::NoId => r is None,
                ProjectId::Id(p) => if prj_has(self.spec_projects(), p) {
                    r matches Some(pr) && pr@ == self.spec_projects()[prj_idx(
                        self.spec_projects(),
                        p,
                    )].1
                } else {
                    r is None
                },
            },
    {
        match project_id {
            ProjectId::NoId => None,
            ProjectId::Id(p) => {
                match self.find_project(p) {
                    Some(i) => {
                        proof {
                            lemma_prj_idx_unique(self.spec_projects(), p, i as int);
                        }
                        Some(&self.prj_at(i).1)
                    },
                    None => None,
                }
            },
        }
    }
}

/// Inserting a fresh id with a fresh short name keeps the registry sorted
/// and unique, and keeps every previously valid project reference valid.
proof fn lemma_wf_after_project_insert(
    ps: Seq<(u16, ProjectView)>,
    cs: Seq<(i64, CheckpointView)>,
    at: int,
    kv: (u16, ProjectView),
)
    requires
        crate::model::parts_valid(ps, cs),
        0 <= at <= ps.len(),
        forall|j: int| 0 <= j < at ==> ps[j].0 < kv.0,
        forall|j: int| at <= j < ps.len() ==> ps[j].0 > kv.0,
        !prj_has_short(ps, kv.1.short_name),
    ensures
        crate::model::parts_valid(ps.insert(at, kv), cs),
{
    let ps2 = ps.insert(at, kv);
    assert forall|i: int, j: int| 0 <= i < j < ps2.len() implies ps2[i].0 < ps2[j].0 by {
        if i < at && j < at {
            assert(ps2[i] == ps[i] && ps2[j] == ps[j]);
        } else if i < at && j == at {
            assert(ps2[i] == ps[i]);
        } else if i < at && j > at {
            assert(ps2[i] == ps[i] && ps2[j] == ps[j - 1]);
        } else if i == at {
            assert(ps2[j] == ps[j - 1]);
        } else {
            assert(ps2[i] == ps[i - 1] && ps2[j] == ps[j - 1]);
        }
    }
    assert forall|i: int, j: int| 0 <= i < j < ps2.len() implies ps2[i].1.short_name
        != ps2[j].1.short_name by {
        if i != at && j != at {
            let i0 = if i < at { i } else { i - 1 };
            let j0 = if j < at { j } else { j - 1 };
            assert(ps2[i] == ps[i0] && ps2[j] == ps[j0]);
        } else if i == at {
            assert(ps2[j] == ps[j - 1]);
            assert(ps[j - 1].1.short_name != kv.1.short_name);
        } else {
            assert(ps2[i] == ps[i]);
            assert(ps[i].1.short_name != kv.1.short_name);
        }
    }
    assert forall|i: int| 0 <= i < cs.len() implies pid_valid(ps2, #[trigger] cs[i].1.project_id) by {
        match cs[i].1.project_id {
            ProjectId::NoId => {},
            ProjectId::Id(p) => {
                let w = prj_idx(ps, p);
                assert(0 <= w < ps.len() && ps[w].0 == p);
                if w < at {
                    assert(ps2[w] == ps[w]);
                } else {
                    assert(ps2[w + 1] == ps[w]);
                }
            },
        }
    }
}

/// Removing one project and stripping its id from every checkpoint keeps
/// the store invariant.
proof fn lemma_wf_after_cascade(
    ps: Seq<(u16, ProjectView)>,
    cs: Seq<(i64, CheckpointView)>,
    at: int,
    p: u16,
    cs2: Seq<(i64, CheckpointView)>,
)
    requires
        crate::model::parts_valid(ps, cs),
        0 <= at < ps.len(),
        ps[at].0 == p,
        cs2.len() == cs.len(),
        forall|i: int|
            0 <= i < cs.len() ==> {
                let was = #[trigger] cs[i];
                let now = cs2[i];
                now.0 == was.0 && now.1.project_id == (if was.1.project_id == ProjectId::Id(p) {
                    ProjectId::NoId
                } else {
                    was.1.project_id
                })
            },
    ensures
        crate::model::parts_valid(ps.remove(at), cs2),
{
    let ps2 = ps.remove(at);
    assert(prjs_sorted(ps2)) by {
        assert forall|i: int, j: int| 0 <= i < j < ps2.len() implies ps2[i].0 < ps2[j].0 by {
            let i0 = if i < at { i } else { i + 1 };
            let j0 = if j < at { j } else { j + 1 };
            assert(ps2[i] == ps[i0] && ps2[j] == ps[j0]);
        }
    }
    assert(prj_shorts_unique(ps2)) by {
        assert forall|i: int, j: int| 0 <= i < j < ps2.len() implies ps2[i].1.short_name
            != ps2[j].1.short_name by {
            let i0 = if i < at { i } else { i + 1 };
            let j0 = if j < at { j } else { j + 1 };
            assert(ps2[i] == ps[i0] && ps2[j] == ps[j0]);
        }
    }
    assert(cps_sorted(cs2)) by {
        assert forall|i: int, j: int| 0 <= i < j < cs2.len() implies cs2[i].0 < cs2[j].0 by {
            assert(cs2[i].0 == cs[i].0 && cs2[j].0 == cs[j].0);
        }
    }
    assert forall|i: int| 0 <= i < cs2.len() implies pid_valid(
        ps2,
        #[trigger] cs2[i].1.project_id,
    ) by {
        match cs2[i].1.project_id {
            ProjectId::NoId => {},
            ProjectId::Id(q) => {
                assert(cs[i].1.project_id == ProjectId::Id(q));
                assert(q != p);
                let w = prj_idx(ps, q);
                assert(0 <= w < ps.len() && ps[w].0 == q);
                assert(w != at);
                if w < at {
                    assert(ps2[w] == ps[w]);
                } else {
                    assert(ps2[w - 1] == ps[w]);
                }
            },
        }
    }
}

} // verus!
