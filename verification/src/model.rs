//! The mathematical model of the store.
//!
//! A store is modelled by two sequences: the registered projects as
//! `(id, ProjectView)` pairs ordered by ascending id, and the checkpoints as
//! `(timestamp, CheckpointView)` pairs ordered by ascending timestamp.
//! The predicates and resolution functions here are the vocabulary in which
//! every public contract of the crate is stated.

use vstd::prelude::*;

use crate::checkpoint::{Checkpoint, CheckpointId, CheckpointView};
use crate::project::{Project, ProjectId, ProjectView};

verus! {

/// The model of stored project pairs: each project replaced by its view.
pub open spec fn prjs_model(s: Seq<(u16, Project)>) -> Seq<(u16, ProjectView)> {
    s.map_values(|kv: (u16, Project)| (kv.0, kv.1@))
}

/// The model of stored checkpoint pairs: each checkpoint replaced by its
/// view.
pub open spec fn cps_model(s: Seq<(i64, Checkpoint)>) -> Seq<(i64, CheckpointView)> {
    s.map_values(|kv: (i64, Checkpoint)| (kv.0, kv.1@))
}

/// How the project model indexes back into the stored pairs.
pub broadcast proof fn lemma_prjs_model_index(s: Seq<(u16, Project)>, i: int)
    requires
        0 <= i < s.len(),
    ensures
        #[trigger] prjs_model(s)[i] == (s[i].0, s[i].1@),
{
}

/// How the checkpoint model indexes back into the stored pairs.
pub broadcast proof fn lemma_cps_model_index(s: Seq<(i64, Checkpoint)>, i: int)
    requires
        0 <= i < s.len(),
    ensures
        #[trigger] cps_model(s)[i] == (s[i].0, s[i].1@),
{
}

/// Checkpoint keys are strictly ascending: ordered and free of duplicates.
pub open spec fn cps_sorted(s: Seq<(i64, CheckpointView)>) -> bool {
    forall|i: int, j: int| 0 <= i < j < s.len() ==> s[i].0 < s[j].0
}

/// Some checkpoint is stored under timestamp `t`.
pub open spec fn cp_has(s: Seq<(i64, CheckpointView)>, t: i64) -> bool {
    exists|i: int| 0 <= i < s.len() && s[i].0 == t
}

/// The index of the checkpoint stored under `t`; meaningful when
/// `cp_has(s, t)` holds and the keys are distinct.
pub open spec fn cp_idx(s: Seq<(i64, CheckpointView)>, t: i64) -> int {
    choose|i: int| 0 <= i < s.len() && s[i].0 == t
}

/// The reverse-chronological position of the checkpoint stored under `t`:
/// 0 for the most recent timestamp, `s.len() - 1` for the oldest.
pub open spec fn cp_pos(s: Seq<(i64, CheckpointView)>, t: i64) -> int {
    s.len() - 1 - cp_idx(s, t)
}

/// What resolving an address to an absolute timestamp returns: the
/// timestamp itself when present, or the timestamp at the given
/// reverse-chronological position when in range.
pub open spec fn spec_to_timestamp(s: Seq<(i64, CheckpointView)>, id: CheckpointId) -> Option<
    i64,
> {
    match id {
        CheckpointId::Timestamp(t) => if cp_has(s, t) {
            Some(t)
        } else {
            None
        },
        CheckpointId::Position(p) => if (p as int) < s.len() {
            Some(s[s.len() - 1 - p].0)
        } else {
            None
        },
    }
}

/// What resolving an address to a reverse-chronological position returns.
pub open spec fn spec_to_position(s: Seq<(i64, CheckpointView)>, id: CheckpointId) -> Option<
    usize,
> {
    match id {
        CheckpointId::Timestamp(t) => if cp_has(s, t) {
            Some(cp_pos(s, t) as usize)
        } else {
            None
        },
        CheckpointId::Position(p) => if (p as int) < s.len() {
            Some(p)
        } else {
            None
        },
    }
}

/// The elapsed time, as a mathematical integer, between the addressed
/// checkpoint and its chronological predecessor. `None` when the address
/// does not resolve or the addressed checkpoint is the oldest one.
pub open spec fn spec_duration(s: Seq<(i64, CheckpointView)>, id: CheckpointId) -> Option<int> {
    match spec_to_timestamp(s, id) {
        Some(t) => {
            let i = cp_idx(s, t);
            if i > 0 {
                Some(t - s[i - 1].0)
            } else {
                None
            }
        },
        None => None,
    }
}

/// The subtraction behind `spec_duration` stays within `i64` for the
/// addressed checkpoint. A machine limit, not a rule of the store: two
/// neighbouring timestamps near the two ends of the `i64` range are more
/// than `i64::MAX` apart.
pub open spec fn duration_fits(s: Seq<(i64, CheckpointView)>, id: CheckpointId) -> bool {
    match spec_duration(s, id) {
        Some(d) => i64::MIN <= d <= i64::MAX,
        None => true,
    }
}

/// Project ids are strictly ascending: ordered and free of duplicates.
pub open spec fn prjs_sorted(s: Seq<(u16, ProjectView)>) -> bool {
    forall|i: int, j: int| 0 <= i < j < s.len() ==> s[i].0 < s[j].0
}

/// Some project is registered under id `p`.
pub open spec fn prj_has(s: Seq<(u16, ProjectView)>, p: u16) -> bool {
    exists|i: int| 0 <= i < s.len() && s[i].0 == p
}

/// The index of the project registered under `p`; meaningful when
/// `prj_has(s, p)` holds and the ids are distinct.
pub open spec fn prj_idx(s: Seq<(u16, ProjectView)>, p: u16) -> int {
    choose|i: int| 0 <= i < s.len() && s[i].0 == p
}

/// Some registered project carries this short name.
pub open spec fn prj_has_short(s: Seq<(u16, ProjectView)>, name: Seq<char>) -> bool {
    exists|i: int| 0 <= i < s.len() && s[i].1.short_name == name
}

/// No two registered projects share a short name.
pub open spec fn prj_shorts_unique(s: Seq<(u16, ProjectView)>) -> bool {
    forall|i: int, j: int|
        0 <= i < j < s.len() ==> s[i].1.short_name != s[j].1.short_name
}

/// A project reference is valid: the explicit "no project" marker always
/// is, and a numeric id is valid when a project is registered under it.
pub open spec fn pid_valid(ps: Seq<(u16, ProjectView)>, pid: ProjectId) -> bool {
    match pid {
        ProjectId::NoId => true,
        ProjectId::Id(p) => prj_has(ps, p),
    }
}

/// Referential integrity: every project reference held by a checkpoint
/// resolves against the registry.
pub open spec fn cps_references_valid(
    ps: Seq<(u16, ProjectView)>,
    cs: Seq<(i64, CheckpointView)>,
) -> bool {
    forall|i: int| 0 <= i < cs.len() ==> pid_valid(ps, #[trigger] cs[i].1.project_id)
}

/// The store invariant over the two model sequences: both orderings, unique
/// short names, and referential integrity.
pub open spec fn parts_valid(
    ps: Seq<(u16, ProjectView)>,
    cs: Seq<(i64, CheckpointView)>,
) -> bool {
    &&& prjs_sorted(ps)
    &&& prj_shorts_unique(ps)
    &&& cps_sorted(cs)
    &&& cps_references_valid(ps, cs)
}

/// `j` is the place where a checkpoint with the fresh timestamp `t` has to
/// go to keep the keys ascending: everything before it is older,
/// everything from it on is newer.
pub open spec fn cp_is_insert_pos(s: Seq<(i64, CheckpointView)>, t: i64, j: int) -> bool {
    &&& 0 <= j <= s.len()
    &&& forall|i: int| 0 <= i < j ==> s[i].0 < t
    &&& forall|i: int| j <= i < s.len() ==> s[i].0 > t
}

/// The place where a checkpoint with the fresh timestamp `t` has to go;
/// meaningful when some `cp_is_insert_pos(s, t, j)` holds, which pins it.
pub open spec fn cp_insert_pos(s: Seq<(i64, CheckpointView)>, t: i64) -> int {
    choose|j: int| cp_is_insert_pos(s, t, j)
}

/// What storing a checkpoint under `t` does to the model: the record
/// under `t` is replaced when one exists, otherwise the new record enters
/// at its insert position. The timestamp is the sole key, so this is
/// always a whole-record replacement, never a merge.
pub open spec fn cp_put(
    s: Seq<(i64, CheckpointView)>,
    t: i64,
    cv: CheckpointView,
) -> Seq<(i64, CheckpointView)> {
    if cp_has(s, t) {
        s.update(cp_idx(s, t), (t, cv))
    } else {
        s.insert(cp_insert_pos(s, t), (t, cv))
    }
}

/// A sequence with strictly ascending keys has an insert position for
/// every timestamp not already present.
pub proof fn lemma_insert_pos_exists(s: Seq<(i64, CheckpointView)>, t: i64)
    requires
        cps_sorted(s),
        !cp_has(s, t),
    ensures
        cp_is_insert_pos(s, t, cp_insert_pos(s, t)),
    decreases s.len(),
{
    if s.len() == 0 {
        assert(cp_is_insert_pos(s, t, 0));
    } else if s.last().0 < t {
        assert forall|i: int| 0 <= i < s.len() implies s[i].0 < t by {
            if i < s.len() - 1 {
                assert(s[i].0 < s.last().0);
            }
        }
        assert(cp_is_insert_pos(s, t, s.len() as int));
    } else {
        let front = s.drop_last();
        assert(cps_sorted(front));
        assert(!cp_has(front, t)) by {
            if cp_has(front, t) {
                let w = choose|i: int| 0 <= i < front.len() && front[i].0 == t;
                assert(s[w].0 == t);
            }
        }
        lemma_insert_pos_exists(front, t);
        let j = cp_insert_pos(front, t);
        assert(s.last().0 != t) by {
            if s.last().0 == t {
                assert(s[s.len() - 1].0 == t);
            }
        }
        assert forall|i: int| 0 <= i < j implies s[i].0 < t by {
            assert(front[i] == s[i]);
            assert(front[i].0 < t);
        }
        assert forall|i: int| j <= i < s.len() implies s[i].0 > t by {
            if i < s.len() - 1 {
                assert(front[i] == s[i]);
                assert(front[i].0 > t);
            } else {
                assert(s[i] == s.last());
            }
        }
        assert(cp_is_insert_pos(s, t, j));
    }
    let w = choose|j: int| cp_is_insert_pos(s, t, j);
    lemma_cp_insert_pos_unique(s, t, w);
}

/// What `cp_put` guarantees on a sorted sequence: the keys stay strictly
/// ascending, the new record sits under `t`, every other record is
/// untouched, and presence of other timestamps is unchanged.
pub proof fn lemma_cp_put_facts(s: Seq<(i64, CheckpointView)>, t: i64, cv: CheckpointView)
    requires
        cps_sorted(s),
    ensures
        cps_sorted(cp_put(s, t, cv)),
        cp_has(cp_put(s, t, cv), t),
        cp_put(s, t, cv)[cp_idx(cp_put(s, t, cv), t)].1 == cv,
        forall|t2: i64| t2 != t ==> (cp_has(cp_put(s, t, cv), t2) <==> cp_has(s, t2)),
        forall|t2: i64|
            t2 != t && cp_has(s, t2) ==> #[trigger] cp_put(s, t, cv)[cp_idx(
                cp_put(s, t, cv),
                t2,
            )].1 == s[cp_idx(s, t2)].1,
        cp_put(s, t, cv).len() == s.len() + (if cp_has(s, t) {
            0int
        } else {
            1int
        }),
{
    let s2 = cp_put(s, t, cv);
    if cp_has(s, t) {
        let i = cp_idx(s, t);
        assert(0 <= i < s.len() && s[i].0 == t);
        assert forall|a: int, b: int| 0 <= a < b < s2.len() implies s2[a].0 < s2[b].0 by {
            assert(s2[a].0 == s[a].0 && s2[b].0 == s[b].0);
        }
        lemma_cp_idx_unique(s2, t, i);
        assert forall|t2: i64| t2 != t implies (cp_has(s2, t2) <==> cp_has(s, t2)) by {
            if cp_has(s2, t2) {
                let w = choose|m: int| 0 <= m < s2.len() && s2[m].0 == t2;
                assert(s[w].0 == t2);
            }
            if cp_has(s, t2) {
                let w = choose|m: int| 0 <= m < s.len() && s[m].0 == t2;
                assert(s2[w].0 == t2);
            }
        }
        assert forall|t2: i64| t2 != t && cp_has(s, t2) implies #[trigger] s2[cp_idx(s2, t2)].1
            == s[cp_idx(s, t2)].1 by {
            let w = cp_idx(s, t2);
            assert(0 <= w < s.len() && s[w].0 == t2);
            assert(s2[w].0 == t2);
            lemma_cp_idx_unique(s2, t2, w);
        }
    } else {
        lemma_insert_pos_exists(s, t);
        let j = cp_insert_pos(s, t);
        assert forall|a: int, b: int| 0 <= a < b < s2.len() implies s2[a].0 < s2[b].0 by {
            if a < j && b < j {
                assert(s2[a] == s[a] && s2[b] == s[b]);
            } else if a < j && b == j {
                assert(s2[a] == s[a]);
            } else if a < j && b > j {
                assert(s2[a] == s[a] && s2[b] == s[b - 1]);
            } else if a == j {
                assert(s2[b] == s[b - 1]);
            } else {
                assert(s2[a] == s[a - 1] && s2[b] == s[b - 1]);
            }
        }
        assert(s2[j].0 == t);
        lemma_cp_idx_unique(s2, t, j);
        assert forall|t2: i64| t2 != t implies (cp_has(s2, t2) <==> cp_has(s, t2)) by {
            if cp_has(s2, t2) {
                let w = choose|m: int| 0 <= m < s2.len() && s2[m].0 == t2;
                if w < j {
                    assert(s[w].0 == t2);
                } else {
                    assert(s[w - 1].0 == t2);
                }
            }
            if cp_has(s, t2) {
                let w = choose|m: int| 0 <= m < s.len() && s[m].0 == t2;
                if w < j {
                    assert(s2[w].0 == t2);
                } else {
                    assert(s2[w + 1].0 == t2);
                }
            }
        }
        assert forall|t2: i64| t2 != t && cp_has(s, t2) implies #[trigger] s2[cp_idx(s2, t2)].1
            == s[cp_idx(s, t2)].1 by {
            let w = cp_idx(s, t2);
            assert(0 <= w < s.len() && s[w].0 == t2);
            if w < j {
                assert(s2[w] == s[w]);
                lemma_cp_idx_unique(s2, t2, w);
            } else {
                assert(s2[w + 1] == s[w]);
                lemma_cp_idx_unique(s2, t2, w + 1);
            }
        }
    }
}

/// An insert position is unique, so `cp_insert_pos` denotes it.
pub proof fn lemma_cp_insert_pos_unique(s: Seq<(i64, CheckpointView)>, t: i64, j: int)
    requires
        cp_is_insert_pos(s, t, j),
    ensures
        cp_insert_pos(s, t) == j,
{
    let j2 = cp_insert_pos(s, t);
    assert(cp_is_insert_pos(s, t, j2));
    if j < j2 {
        assert(s[j].0 > t && s[j].0 < t);
    } else if j2 < j {
        assert(s[j2].0 > t && s[j2].0 < t);
    }
}

/// Overwriting the checkpoint stored under `t` with another checkpoint
/// under the same `t` keeps the store invariant, provided the new project
/// reference is valid.
pub proof fn lemma_wf_after_cp_update(
    ps: Seq<(u16, ProjectView)>,
    cs: Seq<(i64, CheckpointView)>,
    at: int,
    t: i64,
    cv: CheckpointView,
)
    requires
        parts_valid(ps, cs),
        0 <= at < cs.len(),
        cs[at].0 == t,
        pid_valid(ps, cv.project_id),
    ensures
        parts_valid(ps, cs.update(at, (t, cv))),
{
    let cs2 = cs.update(at, (t, cv));
    assert forall|i: int, j: int| 0 <= i < j < cs2.len() implies cs2[i].0 < cs2[j].0 by {
        assert(cs2[i].0 == cs[i].0 && cs2[j].0 == cs[j].0);
    }
    assert forall|i: int| 0 <= i < cs2.len() implies pid_valid(
        ps,
        #[trigger] cs2[i].1.project_id,
    ) by {
        if i != at {
            assert(cs2[i] == cs[i]);
        }
    }
}

/// Inserting a checkpoint with a fresh timestamp at its insert position
/// keeps the store invariant, provided its project reference is valid.
pub proof fn lemma_wf_after_cp_insert(
    ps: Seq<(u16, ProjectView)>,
    cs: Seq<(i64, CheckpointView)>,
    at: int,
    t: i64,
    cv: CheckpointView,
)
    requires
        parts_valid(ps, cs),
        cp_is_insert_pos(cs, t, at),
        pid_valid(ps, cv.project_id),
    ensures
        parts_valid(ps, cs.insert(at, (t, cv))),
{
    let cs2 = cs.insert(at, (t, cv));
    assert forall|i: int, j: int| 0 <= i < j < cs2.len() implies cs2[i].0 < cs2[j].0 by {
        if i < at && j < at {
            assert(cs2[i] == cs[i] && cs2[j] == cs[j]);
        } else if i < at && j == at {
            assert(cs2[i] == cs[i]);
        } else if i < at && j > at {
            assert(cs2[i] == cs[i] && cs2[j] == cs[j - 1]);
        } else if i == at {
            assert(cs2[j] == cs[j - 1]);
        } else {
            assert(cs2[i] == cs[i - 1] && cs2[j] == cs[j - 1]);
        }
    }
    assert forall|i: int| 0 <= i < cs2.len() implies pid_valid(
        ps,
        #[trigger] cs2[i].1.project_id,
    ) by {
        if i < at {
            assert(cs2[i] == cs[i]);
        } else if i > at {
            assert(cs2[i] == cs[i - 1]);
        }
    }
}

/// Removing one checkpoint keeps the store invariant.
pub proof fn lemma_wf_after_cp_remove(
    ps: Seq<(u16, ProjectView)>,
    cs: Seq<(i64, CheckpointView)>,
    at: int,
)
    requires
        parts_valid(ps, cs),
        0 <= at < cs.len(),
    ensures
        parts_valid(ps, cs.remove(at)),
{
    let cs2 = cs.remove(at);
    assert forall|i: int, j: int| 0 <= i < j < cs2.len() implies cs2[i].0 < cs2[j].0 by {
        let i0 = if i < at { i } else { i + 1 };
        let j0 = if j < at { j } else { j + 1 };
        assert(cs2[i] == cs[i0] && cs2[j] == cs[j0]);
    }
    assert forall|i: int| 0 <= i < cs2.len() implies pid_valid(
        ps,
        #[trigger] cs2[i].1.project_id,
    ) by {
        let i0 = if i < at { i } else { i + 1 };
        assert(cs2[i] == cs[i0]);
    }
}

/// A timestamp that address resolution hands back is present in the store.
pub proof fn lemma_resolved_timestamp_present(
    cs: Seq<(i64, CheckpointView)>,
    id: CheckpointId,
    t: i64,
)
    requires
        spec_to_timestamp(cs, id) == Some(t),
    ensures
        cp_has(cs, t),
{
    match id {
        CheckpointId::Timestamp(_) => {},
        CheckpointId::Position(p) => {
            assert(cs[cs.len() - 1 - p].0 == t);
        },
    }
}

/// Everything address resolution guarantees about a resolved timestamp:
/// it is present, `cp_idx` denotes its index, resolving to a position
/// agrees, addressing it by timestamp resolves to itself, and its duration
/// is the duration of the original address.
pub proof fn lemma_resolution_facts(cs: Seq<(i64, CheckpointView)>, id: CheckpointId, t: i64)
    requires
        cps_sorted(cs),
        spec_to_timestamp(cs, id) == Some(t),
    ensures
        cp_has(cs, t),
        0 <= cp_idx(cs, t) < cs.len(),
        cs[cp_idx(cs, t)].0 == t,
        spec_to_position(cs, id) == Some((cs.len() - 1 - cp_idx(cs, t)) as usize),
        spec_to_timestamp(cs, CheckpointId::Timestamp(t)) == Some(t),
        spec_duration(cs, CheckpointId::Timestamp(t)) == spec_duration(cs, id),
{
    lemma_resolved_timestamp_present(cs, id, t);
    let w = choose|i: int| 0 <= i < cs.len() && cs[i].0 == t;
    lemma_cp_idx_unique(cs, t, w);
    match id {
        CheckpointId::Timestamp(_) => {},
        CheckpointId::Position(p) => {
            lemma_cp_idx_unique(cs, t, cs.len() - 1 - p);
        },
    }
}

/// In a sequence with strictly ascending keys, an index holding `t`
/// is the unique one `cp_idx` denotes.
pub proof fn lemma_cp_idx_unique(s: Seq<(i64, CheckpointView)>, t: i64, i: int)
    requires
        cps_sorted(s),
        0 <= i < s.len(),
        s[i].0 == t,
    ensures
        cp_has(s, t),
        cp_idx(s, t) == i,
{
    assert(cp_has(s, t));
    let j = cp_idx(s, t);
    if i < j {
        assert(s[i].0 < s[j].0);
    } else if j < i {
        assert(s[j].0 < s[i].0);
    }
}

/// In a sequence with strictly ascending ids, an index holding `p`
/// is the unique one `prj_idx` denotes.
pub proof fn lemma_prj_idx_unique(s: Seq<(u16, ProjectView)>, p: u16, i: int)
    requires
        prjs_sorted(s),
        0 <= i < s.len(),
        s[i].0 == p,
    ensures
        prj_has(s, p),
        prj_idx(s, p) == i,
{
    assert(prj_has(s, p));
    let j = prj_idx(s, p);
    if i < j {
        assert(s[i].0 < s[j].0);
    } else if j < i {
        assert(s[j].0 < s[i].0);
    }
}

} // verus!
