//! Rebuilding a store from persisted data, and whole-store comparison.
//!
//! Persistence itself (the JSON file) is an outside concern: a persistence
//! adapter serialises the pairs that [`CheckpointDb::projects`] and
//! [`CheckpointDb::checkpoints`] hand out and feeds the parsed pairs back
//! through [`CheckpointDb::from_parts`]. `from_parts` accepts exactly the
//! data that satisfies the store invariant, and a store's own parts always
//! do, so a store survives the round trip unchanged (see [`crate::laws`]).

use vstd::prelude::*;

use crate::checkpoint::Checkpoint;
use crate::model::{cps_model, lemma_cps_model_index, lemma_prjs_model_index, parts_valid, pid_valid, prj_has, prjs_model};
use crate::project::{Project, ProjectId};
use crate::store::CheckpointDb;

verus! {

impl CheckpointDb {
    /// Rebuilds a store from persisted parts: `(id, project)` pairs and
    /// `(timestamp, checkpoint)` pairs, both in ascending key order.
    /// Returns `None` exactly when the data does not satisfy the store
    /// invariant (keys out of order or repeated, short names repeated, or
    /// a checkpoint referencing an unregistered project id).
    pub fn from_parts(projects: Vec<(u16, Project)>, checkpoints: Vec<(i64, Checkpoint)>) -> (r:
        Option<CheckpointDb>)
        ensures
            ({
                let pm = prjs_model(projects@);
                let cm = cps_model(checkpoints@);
                match r {
                    Some(db) => db.wf() && db.spec_projects() == pm && db.spec_checkpoints()
                        == cm,
                    None => !parts_valid(pm, cm),
                }
            }),
    {
        broadcast use lemma_prjs_model_index, lemma_cps_model_index;

        let ghost pm = prjs_model(projects@);
        let ghost cm = cps_model(checkpoints@);
        let pn = projects.len();
        let cn = checkpoints.len();

        // Project ids strictly ascending.
        let mut i: usize = 1;
        while i < pn
            invariant
                1 <= i,
                pn == projects@.len(),
                forall|a: int, b: int| 0 <= a < b < i ==> projects@[a].0 < projects@[b].0,
            decreases pn - i,
        {
            if projects[i - 1].0 >= projects[i].0 {
                proof {
                    assert(prjs_model(projects@)[i - 1].0 >= prjs_model(projects@)[i as int].0);
                }
                return None;
            }
            i += 1;
        }

        // Short names unique.
        let mut a: usize = 0;
        while a < pn
            invariant
                pn == projects@.len(),
                forall|x: int, y: int|
                    0 <= x < y < projects@.len() && x < a ==> projects@[x].1.short_name@
                        != projects@[y].1.short_name@,
            decreases pn - a,
        {
            let mut b: usize = a + 1;
            while b < pn
                invariant
                    a < b,
                    pn == projects@.len(),
                    forall|y: int|
                        a < y < b ==> projects@[a as int].1.short_name@
                            != projects@[y].1.short_name@,
                decreases pn - b,
            {
                if projects[a].1.short_name == projects[b].1.short_name {
                    proof {
                        assert(prjs_model(projects@)[a as int].1.short_name == prjs_model(
                            projects@,
                        )[b as int].1.short_name);
                    }
                    return None;
                }
                b += 1;
            }
            a += 1;
        }

        // Timestamps strictly ascending.
        let mut i: usize = 1;
        while i < cn
            invariant
                1 <= i,
                cn == checkpoints@.len(),
                forall|a: int, b: int| 0 <= a < b < i ==> checkpoints@[a].0 < checkpoints@[b].0,
            decreases cn - i,
        {
            if checkpoints[i - 1].0 >= checkpoints[i].0 {
                proof {
                    assert(cps_model(checkpoints@)[i - 1].0 >= cps_model(
                        checkpoints@,
                    )[i as int].0);
                }
                return None;
            }
            i += 1;
        }

        // Every referenced project id is registered.
        let mut j: usize = 0;
        while j < cn
            invariant
                cn == checkpoints@.len(),
                pn == projects@.len(),
                forall|x: int|
                    0 <= x < j ==> pid_valid(
                        prjs_model(projects@),
                        #[trigger] checkpoints@[x].1.project_id,
                    ),
            decreases cn - j,
        {
            if let ProjectId::Id(p) = checkpoints[j].1.project_id {
                let mut k: usize = 0;
                let mut found = false;
                while k < pn
                    invariant
                        k <= pn,
                        pn == projects@.len(),
                        found ==> prj_has(prjs_model(projects@), p),
                        !found ==> forall|m: int| 0 <= m < k ==> projects@[m].0 != p,
                    decreases pn - k,
                {
                    if projects[k].0 == p {
                        proof {
                            assert(prjs_model(projects@)[k as int].0 == p);
                        }
                        found = true;
                    }
                    k += 1;
                }
                if !found {
                    proof {
                        assert forall|m: int|
                            0 <= m < prjs_model(projects@).len() implies prjs_model(
                            projects@,
                        )[m].0 != p by {
                            assert(projects@[m].0 != p);
                        }
                        assert(!prj_has(prjs_model(projects@), p));
                        assert(cps_model(checkpoints@)[j as int].1.project_id == ProjectId::Id(
                            p,
                        ));
                        assert(!pid_valid(
                            prjs_model(projects@),
                            cps_model(checkpoints@)[j as int].1.project_id,
                        ));
                    }
                    return None;
                }
            }
            j += 1;
        }

        proof {
            assert forall|x: int, y: int| 0 <= x < y < pm.len() implies pm[x].0 < pm[y].0 by {
                assert(prjs_model(projects@)[x].0 == projects@[x].0);
                assert(prjs_model(projects@)[y].0 == projects@[y].0);
            }
            assert forall|x: int, y: int|
                0 <= x < y < pm.len() implies pm[x].1.short_name != pm[y].1.short_name by {
                assert(prjs_model(projects@)[x].1 == projects@[x].1@);
                assert(prjs_model(projects@)[y].1 == projects@[y].1@);
            }
            assert forall|x: int, y: int| 0 <= x < y < cm.len() implies cm[x].0 < cm[y].0 by {
                assert(cps_model(checkpoints@)[x].0 == checkpoints@[x].0);
                assert(cps_model(checkpoints@)[y].0 == checkpoints@[y].0);
            }
            assert forall|x: int| 0 <= x < cm.len() implies pid_valid(
                pm,
                #[trigger] cm[x].1.project_id,
            ) by {
                assert(cps_model(checkpoints@)[x].1 == checkpoints@[x].1@);
                assert(pid_valid(prjs_model(projects@), checkpoints@[x].1.project_id));
            }
            assert(parts_valid(pm, cm));
        }
        Some(CheckpointDb::from_vecs(projects, checkpoints))
    }

    /// An owned copy of the registry pairs, for handing to a persistence
    /// adapter.
    pub fn cloned_projects(&self) -> (r: Vec<(u16, Project)>)
        ensures
            prjs_model(r@) == self.spec_projects(),
    {
        broadcast use lemma_prjs_model_index;

        let n = self.project_count();
        let mut r: Vec<(u16, Project)> = Vec::new();
        let mut i: usize = 0;
        while i < n
            invariant
                i <= n,
                n == self.spec_projects().len(),
                r@.len() == i,
                forall|k: int| #![trigger r@[k]]
                    0 <= k < i ==> r@[k].0 == self.spec_projects()[k].0 && r@[k].1@
                        == self.spec_projects()[k].1,
            decreases n - i,
        {
            let p = self.prj_at(i);
            let copy = Project {
                long_name: p.1.long_name.clone(),
                short_name: p.1.short_name.clone(),
            };
            let ghost r_before = r@;
            r.push((p.0, copy));
            proof {
                assert(r@ == r_before.push((p.0, copy)));
                assert forall|k: int| #![trigger r@[k]]
                    0 <= k < i + 1 implies r@[k].0 == self.spec_projects()[k].0
                        && r@[k].1@ == self.spec_projects()[k].1 by {
                    if k < i {
                        assert(r_before.push((p.0, copy))[k] == r_before[k]);
                        assert(r@[k] == r_before[k]);
                        assert(r_before[k].1@ == self.spec_projects()[k].1);
                    } else {
                        assert(r_before.push((p.0, copy))[k] == (p.0, copy));
                        assert(r@[k] == (p.0, copy));
                        assert(copy@ =~= self.spec_projects()[k].1);
                    }
                }
            }
            i += 1;
        }
        proof {
            assert(prjs_model(r@) =~= self.spec_projects());
        }
        r
    }

    /// An owned copy of the checkpoint pairs, for handing to a persistence
    /// adapter.
    pub fn cloned_checkpoints(&self) -> (r: Vec<(i64, Checkpoint)>)
        ensures
            cps_model(r@) == self.spec_checkpoints(),
    {
        broadcast use lemma_cps_model_index;

        let n = self.checkpoint_count();
        let mut r: Vec<(i64, Checkpoint)> = Vec::new();
        let mut i: usize = 0;
        while i < n
            invariant
                i <= n,
                n == self.spec_checkpoints().len(),
                r@.len() == i,
                forall|k: int| #![trigger r@[k]]
                    0 <= k < i ==> r@[k].0 == self.spec_checkpoints()[k].0 && r@[k].1@
                        == self.spec_checkpoints()[k].1,
            decreases n - i,
        {
            let c = self.cp_at(i);
            let copy = Checkpoint { message: c.1.message.clone(), project_id: c.1.project_id };
            let ghost r_before = r@;
            r.push((c.0, copy));
            proof {
                assert(r@ == r_before.push((c.0, copy)));
                assert forall|k: int| #![trigger r@[k]]
                    0 <= k < i + 1 implies r@[k].0 == self.spec_checkpoints()[k].0
                        && r@[k].1@ == self.spec_checkpoints()[k].1 by {
                    if k < i {
                        assert(r_before.push((c.0, copy))[k] == r_before[k]);
                        assert(r@[k] == r_before[k]);
                        assert(r_before[k].1@ == self.spec_checkpoints()[k].1);
                    } else {
                        assert(r_before.push((c.0, copy))[k] == (c.0, copy));
                        assert(r@[k] == (c.0, copy));
                        assert(copy@ =~= self.spec_checkpoints()[k].1);
                    }
                }
            }
            i += 1;
        }
        proof {
            assert(cps_model(r@) =~= self.spec_checkpoints());
        }
        r
    }

    /// Whether two stores hold the same data: the same projects under the
    /// same ids and the same checkpoints under the same timestamps.
    pub fn same_as(&self, other: &CheckpointDb) -> (r: bool)
        ensures
            r == (self.spec_projects() == other.spec_projects() && self.spec_checkpoints()
                == other.spec_checkpoints()),
    {
        let ghost pm1 = self.spec_projects();
        let ghost pm2 = other.spec_projects();
        let ghost cm1 = self.spec_checkpoints();
        let ghost cm2 = other.spec_checkpoints();
        let pn = self.project_count();
        if pn != other.project_count() {
            proof {
                assert(pm1.len() != pm2.len());
            }
            return false;
        }
        let cn = self.checkpoint_count();
        if cn != other.checkpoint_count() {
            return false;
        }
        let mut i: usize = 0;
        while i < pn
            invariant
                pn == pm1.len() && pn == pm2.len(),
                pm1 == self.spec_projects() && pm2 == other.spec_projects(),
                forall|k: int| 0 <= k < i ==> pm1[k] == pm2[k],
            decreases pn - i,
        {
            let x = self.prj_at(i);
            let y = other.prj_at(i);
            if x.0 != y.0 || !(x.1.long_name == y.1.long_name) || !(x.1.short_name
                == y.1.short_name) {
                return false;
            }
            proof {
                assert(pm1[i as int].1 =~= pm2[i as int].1);
                assert(pm1[i as int] == pm2[i as int]);
            }
            i += 1;
        }
        let mut j: usize = 0;
        while j < cn
            invariant
                cn == cm1.len() && cn == cm2.len(),
                cm1 == self.spec_checkpoints() && cm2 == other.spec_checkpoints(),
                forall|k: int| 0 <= k < j ==> cm1[k] == cm2[k],
            decreases cn - j,
        {
            let x = self.cp_at(j);
            let y = other.cp_at(j);
            if x.0 != y.0 || !(x.1.message == y.1.message) || x.1.project_id
                != y.1.project_id {
                return false;
            }
            proof {
                assert(cm1[j as int].1 =~= cm2[j as int].1);
                assert(cm1[j as int] == cm2[j as int]);
            }
            j += 1;
        }
        proof {
            assert(pm1 =~= pm2);
            assert(cm1 =~= cm2);
        }
        true
    }
}

} // verus!
