//! Batch-trial statistics.
//!
//! A `BatchRunData` accumulates the best values of a stream of
//! independent optimization trials: least, greatest, running sum and
//! count.  The empty accumulator (`count == 0`) carries the greatest
//! `i64` as its least-so-far and the least `i64` as its greatest-so-far,
//! so that it is the identity of merging; the mean is the sum divided by
//! the count, defined once the first observation is in.  Merging is
//! associative and commutative, so parallel lanes may combine their
//! accumulators in any order.

use vstd::prelude::*;

use crate::scalar::{max_int, min_int, sat64, trunc_div};

verus! {

/// Statistics over the outcomes of a batch of trials.
pub struct BatchRunData {
    /// Least observed outcome; `i64::MAX` while no outcome is in.
    pub min_result: i64,
    /// Greatest observed outcome; `i64::MIN` while no outcome is in.
    pub max_result: i64,
    /// Exact sum of all observed outcomes.
    pub total: i128,
    /// Number of outcomes folded in.
    pub run_count: u32,
}

impl BatchRunData {
    /// The accumulator's books balance: the sum lies within what
    /// `run_count` outcomes can reach, and an empty accumulator is the
    /// merge identity.
    pub open spec fn wf(&self) -> bool {
        &&& i64::MIN * self.run_count <= self.total <= i64::MAX * self.run_count
        &&& self.run_count == 0 ==> self.min_result == i64::MAX && self.max_result == i64::MIN
            && self.total == 0
    }

    /// The merged accumulator: least of the leasts, greatest of the
    /// greatests, sums and counts added.
    pub open spec fn spec_merged(a: BatchRunData, b: BatchRunData) -> BatchRunData {
        BatchRunData {
            min_result: (min_int(a.min_result as int, b.min_result as int) as i64),
            max_result: (max_int(a.max_result as int, b.max_result as int) as i64),
            total: ((a.total + b.total) as i128),
            run_count: ((a.run_count + b.run_count) as u32),
        }
    }

    /// The accumulator after folding one more outcome in.
    pub open spec fn spec_recorded(a: BatchRunData, outcome: i64) -> BatchRunData {
        BatchRunData {
            min_result: (min_int(a.min_result as int, outcome as int) as i64),
            max_result: (max_int(a.max_result as int, outcome as int) as i64),
            total: ((a.total + outcome) as i128),
            run_count: ((a.run_count + 1) as u32),
        }
    }

    /// The empty accumulator.
    pub fn new() -> (r: BatchRunData)
        ensures
            r.min_result == i64::MAX,
            r.max_result == i64::MIN,
            r.total == 0,
            r.run_count == 0,
            r.wf(),
    {
        BatchRunData { min_result: i64::MAX, max_result: i64::MIN, total: 0, run_count: 0 }
    }

    /// Fold one trial outcome in: the incremental update of least,
    /// greatest, sum and count.
    pub fn record(&mut self, outcome: i64)
        requires
            old(self).wf(),
            old(self).run_count < u32::MAX,
        ensures
            final(self).wf(),
            *final(self) == Self::spec_recorded(*old(self), outcome),
            final(self).min_result == min_int(old(self).min_result as int, outcome as int),
            final(self).max_result == max_int(old(self).max_result as int, outcome as int),
            final(self).total == old(self).total + outcome,
            final(self).run_count == old(self).run_count + 1,
    {
        if outcome < self.min_result {
            self.min_result = outcome;
        }
        if outcome > self.max_result {
            self.max_result = outcome;
        }
        self.total = self.total + (outcome as i128);
        self.run_count = self.run_count + 1;
    }

    /// Merge another accumulator in; the result is [`spec_merged`] of
    /// the two.
    pub fn merge_with(&mut self, other: &BatchRunData)
        requires
            old(self).wf(),
            other.wf(),
            old(self).run_count + other.run_count <= u32::MAX,
        ensures
            final(self).wf(),
            *final(self) == Self::spec_merged(*old(self), *other),
    {
        if other.min_result < self.min_result {
            self.min_result = other.min_result;
        }
        if other.max_result > self.max_result {
            self.max_result = other.max_result;
        }
        self.total = self.total + other.total;
        self.run_count = self.run_count + other.run_count;
    }

    /// The mean of the outcomes folded in so far: the sum divided by
    /// the count, truncated.
    pub fn average(&self) -> (r: i64)
        requires
            self.run_count > 0,
        ensures
            r == sat64(trunc_div(self.total as int, self.run_count as int)),
    {
        let q: i128 = match self.total.checked_div(self.run_count as i128) {
            Some(v) => v,
            None => 0,
        };
        if q > i64::MAX as i128 {
            i64::MAX
        } else if q < i64::MIN as i128 {
            i64::MIN
        } else {
            q as i64
        }
    }
}

/// The accumulator that folding the outcomes of `s`, in order, into
/// the empty accumulator yields.
pub open spec fn folded_outcomes(s: Seq<i64>) -> BatchRunData
    decreases s.len(),
{
    if s.len() == 0 {
        BatchRunData { min_result: i64::MAX, max_result: i64::MIN, total: 0, run_count: 0 }
    } else {
        BatchRunData::spec_recorded(folded_outcomes(s.drop_last()), s.last())
    }
}

/// The merge, in order, of a sequence of accumulators into the empty
/// accumulator.
pub open spec fn merged_all(s: Seq<BatchRunData>) -> BatchRunData
    decreases s.len(),
{
    if s.len() == 0 {
        BatchRunData { min_result: i64::MAX, max_result: i64::MIN, total: 0, run_count: 0 }
    } else {
        BatchRunData::spec_merged(merged_all(s.drop_last()), s.last())
    }
}

/// Merging accumulators is commutative.
pub proof fn lemma_merge_commutative(a: BatchRunData, b: BatchRunData)
    requires
        a.wf(),
        b.wf(),
        a.run_count + b.run_count <= u32::MAX,
    ensures
        BatchRunData::spec_merged(a, b) == BatchRunData::spec_merged(b, a),
{
}

/// Merging accumulators is associative.
pub proof fn lemma_merge_associative(a: BatchRunData, b: BatchRunData, c: BatchRunData)
    requires
        a.wf(),
        b.wf(),
        c.wf(),
        a.run_count + b.run_count + c.run_count <= u32::MAX,
    ensures
        BatchRunData::spec_merged(BatchRunData::spec_merged(a, b), c) == BatchRunData::spec_merged(
            a,
            BatchRunData::spec_merged(b, c),
        ),
{
}

/// The empty accumulator is the identity of merging.
pub proof fn lemma_merge_identity(a: BatchRunData)
    requires
        a.wf(),
    ensures
        BatchRunData::spec_merged(
            a,
            BatchRunData { min_result: i64::MAX, max_result: i64::MIN, total: 0, run_count: 0 },
        ) == a,
{
}

/// Folding a single observation into the empty accumulator yields that
/// observation as least, greatest and mean, with a count of one.
pub proof fn lemma_fold_single(outcome: i64)
    ensures
        ({
            let folded = BatchRunData::spec_recorded(
                BatchRunData { min_result: i64::MAX, max_result: i64::MIN, total: 0, run_count: 0 },
                outcome,
            );
            &&& folded.min_result == outcome
            &&& folded.max_result == outcome
            &&& folded.total == outcome
            &&& folded.run_count == 1
            &&& trunc_div(folded.total as int, folded.run_count as int) == outcome
        }),
{
    vstd::arithmetic::div_mod::lemma_div_basics(outcome as int);
    vstd::arithmetic::div_mod::lemma_div_basics(-(outcome as int));
}

/// The number of trials each lane runs: the requested count divided by
/// the lane count, rounded up, so that every requested trial is
/// covered.
pub open spec fn per_lane_spec(trial_count: int, lane_count: int) -> int {
    (trial_count + lane_count - 1) / lane_count
}

/// Ceiling division of the requested trials over the lanes.
pub fn tries_per_lane(trial_count: usize, lane_count: usize) -> (r: usize)
    requires
        lane_count >= 1,
    ensures
        r == per_lane_spec(trial_count as int, lane_count as int),
{
    let q = trial_count / lane_count;
    let rem = trial_count % lane_count;
    if rem == 0 {
        proof {
            vstd::arithmetic::div_mod::lemma_fundamental_div_mod(
                trial_count as int,
                lane_count as int,
            );
            vstd::arithmetic::div_mod::lemma_fundamental_div_mod(
                trial_count as int + lane_count - 1,
                lane_count as int,
            );
            assert((trial_count + lane_count - 1) / lane_count as int == q) by {
                vstd::arithmetic::div_mod::lemma_div_multiples_vanish_fancy(
                    q as int,
                    lane_count as int - 1,
                    lane_count as int,
                );
            }
        }
        q
    } else {
        proof {
            vstd::arithmetic::div_mod::lemma_fundamental_div_mod(
                trial_count as int,
                lane_count as int,
            );
            vstd::arithmetic::div_mod::lemma_div_multiples_vanish_fancy(
                q as int + 1,
                rem as int - 1,
                lane_count as int,
            );
            assert(trial_count + lane_count - 1 == (q + 1) * lane_count + (rem - 1)) by {
                assert(q * lane_count + lane_count == (q + 1) * lane_count) by (nonlinear_arith);
            }
            assert(q as int <= q as int * lane_count as int) by (nonlinear_arith)
                requires
                    q >= 0,
                    lane_count >= 1,
            ;
        }
        q + 1
    }
}

/// Running every lane for the ceiling share executes at least the
/// requested number of trials, and overshoots by fewer than the lane
/// count.
pub proof fn lemma_lanes_cover_request(trial_count: int, lane_count: int)
    requires
        trial_count >= 0,
        lane_count >= 1,
    ensures
        trial_count <= lane_count * per_lane_spec(trial_count, lane_count) <= trial_count
            + lane_count - 1,
{
    let x = trial_count + lane_count - 1;
    vstd::arithmetic::div_mod::lemma_fundamental_div_mod(x, lane_count);
    vstd::arithmetic::div_mod::lemma_mod_bound(x, lane_count);
    assert(lane_count * per_lane_spec(trial_count, lane_count) == x - x % lane_count);
}

} // verus!
