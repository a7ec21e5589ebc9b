//! Durations and log views.
//!
//! The duration of a checkpoint is the elapsed time since its chronological
//! predecessor; the oldest checkpoint has none. A log record bundles a
//! checkpoint with its timestamp, position and duration for presentation.

use vstd::prelude::*;

use crate::checkpoint::{Checkpoint, CheckpointId, CheckpointView, LogCheckpoint};
use crate::model::{
    cp_has, cp_idx, cp_pos, duration_fits, lemma_cp_idx_unique, lemma_resolution_facts,
    spec_duration, spec_to_timestamp,
};
use crate::store::CheckpointDb;

verus! {

/// The smaller of two timestamps.
pub open spec fn spec_lo(a: i64, b: i64) -> i64 {
    if a <= b {
        a
    } else {
        b
    }
}

/// The larger of two timestamps.
pub open spec fn spec_hi(a: i64, b: i64) -> i64 {
    if a <= b {
        b
    } else {
        a
    }
}

/// `lc` faithfully presents the checkpoint stored under `lc.timestamp`:
/// the record itself, its reverse-chronological position, and its duration.
pub open spec fn valid_log_record(s: Seq<(i64, CheckpointView)>, lc: LogCheckpoint) -> bool {
    &&& cp_has(s, lc.timestamp)
    &&& lc.checkpoint@ == s[cp_idx(s, lc.timestamp)].1
    &&& lc.position as int == cp_pos(s, lc.timestamp)
    &&& match spec_duration(s, CheckpointId::Timestamp(lc.timestamp)) {
        Some(d) => lc.duration == Some(d as i64),
        None => lc.duration is None,
    }
}

impl CheckpointDb {
    /// The elapsed time between the addressed checkpoint and its
    /// chronological predecessor; `None` when the address does not resolve
    /// or the addressed checkpoint is the oldest one.
    pub fn get_checkpoint_duration(&self, checkpoint_id: &CheckpointId) -> (r: Option<i64>)
        requires
            self.wf(),
            duration_fits(self.spec_checkpoints(), *checkpoint_id),
        ensures
            match spec_duration(self.spec_checkpoints(), *checkpoint_id) {
                Some(d) => r == Some(d as i64),
                None => r is None,
            },
    {
        let ghost cs = self.spec_checkpoints();
        let n = self.checkpoint_count();
        let current_timestamp = match checkpoint_id.to_timestamp(self) {
            Some(t) => t,
            None => {
                return None;
            },
        };
        let current_position = match checkpoint_id.to_position(self) {
            Some(p) => p,
            None => unreached(),
        };
        proof {
            lemma_resolution_facts(cs, *checkpoint_id, current_timestamp);
            assert(n == cs.len());
            assert(cp_idx(cs, current_timestamp) == cs.len() - 1 - current_position);
            assert(current_position < cs.len());
        }
        let preceding = CheckpointId::Position(current_position + 1);
        match preceding.to_timestamp(self) {
            Some(preceding_timestamp) => {
                proof {
                    let i = cp_idx(cs, current_timestamp);
                    assert(preceding_timestamp == cs[i - 1].0);
                    assert(spec_duration(cs, *checkpoint_id) == Some(
                        current_timestamp - cs[i - 1].0,
                    ));
                }
                Some(current_timestamp - preceding_timestamp)
            },
            None => {
                proof {
                    assert(cp_idx(cs, current_timestamp) == 0);
                }
                None
            },
        }
    }

    /// The log record for the addressed checkpoint; `None` when the
    /// address does not resolve.
    pub fn get_log(&self, checkpoint_id: &CheckpointId) -> (r: Option<LogCheckpoint>)
        requires
            self.wf(),
            duration_fits(self.spec_checkpoints(), *checkpoint_id),
        ensures
            match spec_to_timestamp(self.spec_checkpoints(), *checkpoint_id) {
                Some(t) => r matches Some(lc) && lc.timestamp == t && valid_log_record(
                    self.spec_checkpoints(),
                    lc,
                ),
                None => r is None,
            },
    {
        let ghost cs = self.spec_checkpoints();
        let n = self.checkpoint_count();
        let checkpoint = match self.get_checkpoint(checkpoint_id) {
            Some(c) => c,
            None => {
                return None;
            },
        };
        let duration = self.get_checkpoint_duration(checkpoint_id);
        let timestamp = match checkpoint_id.to_timestamp(self) {
            Some(t) => t,
            None => unreached(),
        };
        let position = match checkpoint_id.to_position(self) {
            Some(p) => p,
            None => unreached(),
        };
        proof {
            lemma_resolution_facts(cs, *checkpoint_id, timestamp);
            assert(n == cs.len());
            assert(position as int == cp_pos(cs, timestamp));
        }
        let record = Checkpoint {
            message: checkpoint.message.clone(),
            project_id: checkpoint.project_id,
        };
        Some(LogCheckpoint { timestamp, checkpoint: record, duration, position })
    }

    /// All log records whose timestamp lies strictly between the two given
    /// times (in either order), most recent first.
    #[verifier::rlimit(30)]
    pub fn get_log_between_times(&self, time_start: i64, time_end: i64) -> (r: Vec<
        LogCheckpoint,
    >)
        requires
            self.wf(),
            forall|i: int|
                0 < i < self.spec_checkpoints().len() && spec_lo(time_start, time_end)
                    < #[trigger] self.spec_checkpoints()[i].0 < spec_hi(time_start, time_end)
                    ==> self.spec_checkpoints()[i].0 - self.spec_checkpoints()[i - 1].0
                    <= i64::MAX,
        ensures
            forall|k: int|
                0 <= k < r@.len() ==> valid_log_record(self.spec_checkpoints(), #[trigger] r@[k])
                    && spec_lo(time_start, time_end) < r@[k].timestamp < spec_hi(
                    time_start,
                    time_end,
                ),
            forall|i: int|
                0 <= i < self.spec_checkpoints().len() && spec_lo(time_start, time_end)
                    < #[trigger] self.spec_checkpoints()[i].0 < spec_hi(time_start, time_end)
                    ==> exists|k: int|
                    0 <= k < r@.len() && #[trigger] r@[k].timestamp
                        == self.spec_checkpoints()[i].0,
            forall|k1: int, k2: int|
                0 <= k1 < k2 < r@.len() ==> r@[k1].timestamp > r@[k2].timestamp,
    {
        let ghost cs = self.spec_checkpoints();
        let timestamp_early = if time_start <= time_end {
            time_start
        } else {
            time_end
        };
        let timestamp_late = if time_start <= time_end {
            time_end
        } else {
            time_start
        };
        let n = self.checkpoint_count();
        let mut r: Vec<LogCheckpoint> = Vec::new();
        let mut j: usize = n;
        while j > 0
            invariant
                j <= n,
                n == cs.len(),
                cs == self.spec_checkpoints(),
                self.wf(),
                timestamp_early == spec_lo(time_start, time_end),
                timestamp_late == spec_hi(time_start, time_end),
                forall|i: int|
                    0 < i < cs.len() && timestamp_early < #[trigger] cs[i].0 < timestamp_late
                        ==> cs[i].0 - cs[i - 1].0 <= i64::MAX,
                forall|k: int|
                    0 <= k < r@.len() ==> valid_log_record(cs, #[trigger] r@[k])
                        && timestamp_early < r@[k].timestamp < timestamp_late,
                forall|k: int|
                    0 <= k < r@.len() ==> j <= cp_idx(cs, #[trigger] r@[k].timestamp) < n,
                forall|i: int|
                    j <= i < cs.len() && timestamp_early < #[trigger] cs[i].0 < timestamp_late
                        ==> exists|k: int|
                        0 <= k < r@.len() && #[trigger] r@[k].timestamp == cs[i].0,
                forall|k1: int, k2: int|
                    0 <= k1 < k2 < r@.len() ==> r@[k1].timestamp > r@[k2].timestamp,
            decreases j,
        {
            j -= 1;
            let pair = self.cp_at(j);
            let time = pair.0;
            proof {
                lemma_cp_idx_unique(cs, time, j as int);
            }
            if timestamp_early < time && time < timestamp_late {
                proof {
                    assert(duration_fits(cs, CheckpointId::Timestamp(time))) by {
                        if j > 0 {
                            assert(cs[j as int - 1].0 < cs[j as int].0);
                        }
                    }
                }
                let duration = self.get_checkpoint_duration(&CheckpointId::Timestamp(time));
                let pair = self.cp_at(j);
                let record = Checkpoint {
                    message: pair.1.message.clone(),
                    project_id: pair.1.project_id,
                };
                let lc = LogCheckpoint {
                    timestamp: time,
                    checkpoint: record,
                    duration,
                    position: n - 1 - j,
                };
                let ghost r_before = r@;
                proof {
                    assert forall|k: int| 0 <= k < r_before.len() implies r_before[k].timestamp
                        > time by {
                        assert(cs[cp_idx(cs, r_before[k].timestamp)].0 == r_before[k].timestamp);
                        assert(cp_idx(cs, r_before[k].timestamp) > j);
                    }
                }
                r.push(lc);
                proof {
                    assert(r@ == r_before.push(lc));
                    assert(valid_log_record(cs, lc));
                    assert forall|i: int|
                        j <= i < cs.len() && timestamp_early < #[trigger] cs[i].0
                            < timestamp_late implies exists|k: int|
                        0 <= k < r@.len() && #[trigger] r@[k].timestamp == cs[i].0 by {
                        if i == j {
                            assert(r@[r@.len() - 1].timestamp == cs[i].0);
                        } else {
                            let k0 = choose|k: int|
                                0 <= k < r_before.len() && #[trigger] r_before[k].timestamp
                                    == cs[i].0;
                            assert(r@[k0].timestamp == cs[i].0);
                        }
                    }
                }
            }
        }
        r
    }
}

} // verus!
