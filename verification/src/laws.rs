//! Store-wide laws, stated and proved over the model.
//!
//! Each law here relates several operations of the store; the per-call
//! guarantees live in the `ensures` of the operations themselves.

use vstd::prelude::*;

use crate::checkpoint::{CheckpointId, CheckpointView};
use crate::model::{
    cp_has, cp_idx, cp_pos, cp_put, lemma_cp_idx_unique, lemma_cp_put_facts, spec_to_position,
    spec_to_timestamp,
};
use crate::store::CheckpointDb;

verus! {

/// Round trip through persistence, carried out end to end: copying a
/// store's parts out (as a persistence adapter would before serialising
/// them) and rebuilding a store from them always succeeds and yields a
/// store that holds the same data. The result of this function is proved
/// to be `true` for every well-formed store.
pub fn parts_round_trip_holds(db: &CheckpointDb) -> (r: bool)
    requires
        db.wf(),
    ensures
        r,
{
    let projects = db.cloned_projects();
    let checkpoints = db.cloned_checkpoints();
    match CheckpointDb::from_parts(projects, checkpoints) {
        Some(rebuilt) => db.same_as(&rebuilt),
        None => false,
    }
}

/// Last write wins: storing `a` under `t` and then `b` under the same `t`
/// leaves exactly one record under `t`, holding `b` in full — the same
/// store as writing `b` alone — never a merge of `a` and `b`.
pub proof fn lemma_overwrite_last_wins(
    cs: Seq<(i64, CheckpointView)>,
    t: i64,
    a: CheckpointView,
    b: CheckpointView,
)
    requires
        crate::model::cps_sorted(cs),
    ensures
        ({
            let once = cp_put(cs, t, a);
            let twice = cp_put(once, t, b);
            &&& cp_has(twice, t)
            &&& twice[cp_idx(twice, t)].1 == b
            &&& twice == cp_put(cs, t, b)
        }),
{
    let once = cp_put(cs, t, a);
    let twice = cp_put(once, t, b);
    lemma_cp_put_facts(cs, t, a);
    lemma_cp_put_facts(once, t, b);
    lemma_cp_put_facts(cs, t, b);
    let i = cp_idx(once, t);
    assert(once[i].0 == t);
    if cp_has(cs, t) {
        let j = cp_idx(cs, t);
        assert(once == cs.update(j, (t, a)));
        assert(once[j].0 == t);
        lemma_cp_idx_unique(once, t, j);
        assert(twice == once.update(j, (t, b)));
        assert(twice =~= cs.update(j, (t, b)));
    } else {
        crate::model::lemma_insert_pos_exists(cs, t);
        let j = crate::model::cp_insert_pos(cs, t);
        assert(once == cs.insert(j, (t, a)));
        assert(once[j].0 == t);
        lemma_cp_idx_unique(once, t, j);
        assert(twice == once.update(j, (t, b)));
        assert(twice =~= cs.insert(j, (t, b)));
    }
}

/// Dual addressing agrees: for every stored timestamp, resolving it to its
/// reverse-chronological position and resolving that position back yields
/// the same timestamp.
pub proof fn lemma_addressing_round_trip(cs: Seq<(i64, CheckpointView)>, t: i64)
    requires
        crate::model::cps_sorted(cs),
        cs.len() <= usize::MAX,
        cp_has(cs, t),
    ensures
        ({
            let p = spec_to_position(cs, CheckpointId::Timestamp(t));
            &&& p is Some
            &&& spec_to_timestamp(cs, CheckpointId::Position(p->Some_0)) == Some(t)
        }),
{
    let w = choose|i: int| 0 <= i < cs.len() && cs[i].0 == t;
    lemma_cp_idx_unique(cs, t, w);
    let i = cp_idx(cs, t);
    assert(0 <= i < cs.len());
    assert(cp_pos(cs, t) == cs.len() - 1 - i);
    let p = (cs.len() - 1 - i) as usize;
    assert(cs[cs.len() - 1 - p].0 == t);
}

} // verus!
