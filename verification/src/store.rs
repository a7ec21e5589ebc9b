//! The record store itself: the project registry and the checkpoint map.

use vstd::prelude::*;

use crate::checkpoint::{Checkpoint, CheckpointView};
use crate::model::{
    cp_has, cps_model, parts_valid, prj_has, prj_has_short, prjs_model,
};
use crate::project::{Project, ProjectView};

verus! {

/// An in-memory record store: a registry of projects keyed by numeric id,
/// and a collection of checkpoints keyed by Unix timestamp. Both are held
/// in ascending key order, short names are unique across the registry, and
/// every project id a checkpoint references is registered.
#[derive(Debug)]
pub struct CheckpointDb {
    pub(crate) projects: Vec<(u16, Project)>,
    pub(crate) checkpoints: Vec<(i64, Checkpoint)>,
}

impl CheckpointDb {
    /// The model of the registry: `(id, project)` pairs in store order.
    pub closed spec fn spec_projects(self) -> Seq<(u16, ProjectView)> {
        prjs_model(self.projects@)
    }

    /// The model of the checkpoint map: `(timestamp, checkpoint)` pairs in
    /// store order.
    pub closed spec fn spec_checkpoints(self) -> Seq<(i64, CheckpointView)> {
        cps_model(self.checkpoints@)
    }

    /// The store invariant: ascending distinct keys on both sides, unique
    /// short names, and referential integrity. Established by the
    /// constructors and preserved by every operation.
    pub open spec fn wf(self) -> bool {
        parts_valid(self.spec_projects(), self.spec_checkpoints())
    }

    /// Creates an empty store.
    pub fn new() -> (db: CheckpointDb)
        ensures
            db.wf(),
            db.spec_projects() == Seq::<(u16, ProjectView)>::empty(),
            db.spec_checkpoints() == Seq::<(i64, CheckpointView)>::empty(),
    {
        let db = CheckpointDb { projects: Vec::new(), checkpoints: Vec::new() };
        proof {
            assert(db.spec_projects() =~= Seq::<(u16, ProjectView)>::empty());
            assert(db.spec_checkpoints() =~= Seq::<(i64, CheckpointView)>::empty());
        }
        db
    }

    /// Wraps the two vectors as a store, with no questions asked; callers
    /// establish the invariant.
    pub(crate) fn from_vecs(projects: Vec<(u16, Project)>, checkpoints: Vec<(i64, Checkpoint)>)
        -> (db: CheckpointDb)
        ensures
            db.spec_projects() == prjs_model(projects@),
            db.spec_checkpoints() == cps_model(checkpoints@),
    {
        CheckpointDb { projects, checkpoints }
    }

    /// The registry contents, for persistence and inspection: `(id,
    /// project)` pairs in ascending id order.
    pub fn projects(&self) -> (r: &Vec<(u16, Project)>)
        ensures
            prjs_model(r@) == self.spec_projects(),
    {
        &self.projects
    }

    /// The checkpoint contents, for persistence and inspection:
    /// `(timestamp, checkpoint)` pairs in ascending timestamp order.
    pub fn checkpoints(&self) -> (r: &Vec<(i64, Checkpoint)>)
        ensures
            cps_model(r@) == self.spec_checkpoints(),
    {
        &self.checkpoints
    }

    /// The number of stored checkpoints.
    pub fn checkpoint_count(&self) -> (n: usize)
        ensures
            n == self.spec_checkpoints().len(),
    {
        self.checkpoints.len()
    }

    /// The number of registered projects.
    pub fn project_count(&self) -> (n: usize)
        ensures
            n == self.spec_projects().len(),
    {
        self.projects.len()
    }

    /// The checkpoint pair at store index `i` (ascending timestamp order).
    pub(crate) fn cp_at(&self, i: usize) -> (r: &(i64, Checkpoint))
        requires
            i < self.spec_checkpoints().len(),
        ensures
            r.0 == self.spec_checkpoints()[i as int].0,
            r.1@ == self.spec_checkpoints()[i as int].1,
    {
        &self.checkpoints[i]
    }

    /// The project pair at store index `i` (ascending id order).
    pub(crate) fn prj_at(&self, i: usize) -> (r: &(u16, Project))
        requires
            i < self.spec_projects().len(),
        ensures
            r.0 == self.spec_projects()[i as int].0,
            r.1@ == self.spec_projects()[i as int].1,
    {
        &self.projects[i]
    }

    /// Inserts a project pair at store index `i`, shifting later entries.
    pub(crate) fn prj_insert_at(&mut self, i: usize, id: u16, prj: Project)
        requires
            i <= old(self).spec_projects().len(),
        ensures
            final(self).spec_projects() == old(self).spec_projects().insert(
                i as int,
                (id, prj@),
            ),
            final(self).spec_checkpoints() == old(self).spec_checkpoints(),
    {
        let ghost pv = prj@;
        self.projects.insert(i, (id, prj));
        proof {
            assert(self.spec_projects() =~= old(self).spec_projects().insert(
                i as int,
                (id, pv),
            ));
            assert(self.spec_checkpoints() =~= old(self).spec_checkpoints());
        }
    }

    /// Removes the project pair at store index `i`, shifting later entries.
    pub(crate) fn prj_remove_at(&mut self, i: usize)
        requires
            i < old(self).spec_projects().len(),
        ensures
            final(self).spec_projects() == old(self).spec_projects().remove(i as int),
            final(self).spec_checkpoints() == old(self).spec_checkpoints(),
    {
        self.projects.remove(i);
        proof {
            assert(self.spec_projects() =~= old(self).spec_projects().remove(i as int));
            assert(self.spec_checkpoints() =~= old(self).spec_checkpoints());
        }
    }

    /// Inserts a checkpoint pair at store index `i`, shifting later entries.
    pub(crate) fn cp_insert_at(&mut self, i: usize, t: i64, c: Checkpoint)
        requires
            i <= old(self).spec_checkpoints().len(),
        ensures
            final(self).spec_checkpoints() == old(self).spec_checkpoints().insert(
                i as int,
                (t, c@),
            ),
            final(self).spec_projects() == old(self).spec_projects(),
    {
        let ghost cv = c@;
        self.checkpoints.insert(i, (t, c));
        proof {
            assert(self.spec_checkpoints() =~= old(self).spec_checkpoints().insert(
                i as int,
                (t, cv),
            ));
            assert(self.spec_projects() =~= old(self).spec_projects());
        }
    }

    /// Replaces the checkpoint pair at store index `i`.
    pub(crate) fn cp_set_at(&mut self, i: usize, t: i64, c: Checkpoint)
        requires
            i < old(self).spec_checkpoints().len(),
        ensures
            final(self).spec_checkpoints() == old(self).spec_checkpoints().update(
                i as int,
                (t, c@),
            ),
            final(self).spec_projects() == old(self).spec_projects(),
    {
        let ghost cv = c@;
        self.checkpoints.set(i, (t, c));
        proof {
            assert(self.spec_checkpoints() =~= old(self).spec_checkpoints().update(
                i as int,
                (t, cv),
            ));
            assert(self.spec_projects() =~= old(self).spec_projects());
        }
    }

    /// A mutable reference to the checkpoint value at store index `i`.
    pub(crate) fn cp_value_mut(&mut self, i: usize) -> (r: &mut Checkpoint)
        requires
            i < old(self).spec_checkpoints().len(),
        ensures
            (*r)@ == old(self).spec_checkpoints()[i as int].1,
            final(self).spec_projects() == old(self).spec_projects(),
            final(self).spec_checkpoints() =~= old(self).spec_checkpoints().update(
                i as int,
                (old(self).spec_checkpoints()[i as int].0, (*final(r))@),
            ),
    {
        &mut self.checkpoints[i].1
    }

    /// Removes and returns the checkpoint pair at store index `i`.
    pub(crate) fn cp_remove_at(&mut self, i: usize) -> (r: (i64, Checkpoint))
        requires
            i < old(self).spec_checkpoints().len(),
        ensures
            r.0 == old(self).spec_checkpoints()[i as int].0,
            r.1@ == old(self).spec_checkpoints()[i as int].1,
            final(self).spec_checkpoints() == old(self).spec_checkpoints().remove(i as int),
            final(self).spec_projects() == old(self).spec_projects(),
    {
        let r = self.checkpoints.remove(i);
        proof {
            assert(self.spec_checkpoints() =~= old(self).spec_checkpoints().remove(i as int));
            assert(self.spec_projects() =~= old(self).spec_projects());
        }
        r
    }

    /// Linear scan for the index holding timestamp `t`.
    pub(crate) fn find_checkpoint(&self, t: i64) -> (r: Option<usize>)
        ensures
            match r {
                Some(i) => i < self.spec_checkpoints().len() && self.spec_checkpoints()[i as int].0
                    == t,
                None => !cp_has(self.spec_checkpoints(), t),
            },
    {
        let ghost s = self.spec_checkpoints();
        let n = self.checkpoints.len();
        let mut i: usize = 0;
        while i < n
            invariant
                n == s.len(),
                i <= n,
                s == self.spec_checkpoints(),
                forall|k: int| 0 <= k < i ==> s[k].0 != t,
            decreases n - i,
        {
            if self.checkpoints[i].0 == t {
                return Some(i);
            }
            i += 1;
        }
        None
    }

    /// Linear scan for the index holding project id `p`.
    pub(crate) fn find_project(&self, p: u16) -> (r: Option<usize>)
        ensures
            match r {
                Some(i) => i < self.spec_projects().len() && self.spec_projects()[i as int].0 == p,
                None => !prj_has(self.spec_projects(), p),
            },
    {
        let ghost s = self.spec_projects();
        let n = self.projects.len();
        let mut i: usize = 0;
        while i < n
            invariant
                n == s.len(),
                i <= n,
                s == self.spec_projects(),
                forall|k: int| 0 <= k < i ==> s[k].0 != p,
            decreases n - i,
        {
            if self.projects[i].0 == p {
                return Some(i);
            }
            i += 1;
        }
        None
    }

    /// Linear scan for the index of the project carrying `short_name`.
    pub(crate) fn find_project_by_short(&self, short_name: &str) -> (r: Option<usize>)
        ensures
            match r {
                Some(i) => i < self.spec_projects().len()
                    && self.spec_projects()[i as int].1.short_name == short_name@,
                None => !prj_has_short(self.spec_projects(), short_name@),
            },
    {
        let want: String = short_name.to_owned();
        let ghost s = self.spec_projects();
        let n = self.projects.len();
        let mut i: usize = 0;
        while i < n
            invariant
                n == s.len(),
                i <= n,
                want@ == short_name@,
                s == self.spec_projects(),
                forall|k: int| 0 <= k < i ==> s[k].1.short_name != short_name@,
            decreases n - i,
        {
            if self.projects[i].1.short_name == want {
                return Some(i);
            }
            i += 1;
        }
        None
    }
}

} // verus!
