//! The batch-trial harness.
//!
//! A batch turns many independent optimization trials of one configured
//! population into aggregate statistics.  The requested trial count is
//! split over parallel lanes by ceiling division, so every requested
//! trial is covered and the overshoot stays below the lane count; each
//! lane owns its population — built from its own seed, sharing nothing —
//! runs its share of trials to completion, and the lanes' accumulators
//! merge associatively in any order.  The lane loop and the merge live
//! here; a caller that wants the lanes on separate native threads runs
//! [`run_lane_bats`] or [`run_lane_butterflies`] per thread and merges
//! the results.

use vstd::prelude::*;

use crate::batch::{folded_outcomes, merged_all, per_lane_spec, tries_per_lane, BatchRunData};
use crate::functions::Function;

verus! {

/// One lane's work on a bat population: run the fixed iteration budget,
/// fold the best value found into the accumulator, reset, and repeat
/// for the lane's share of trials.
pub fn run_lane_bats<F: Function>(
    world: &mut crate::bats::WorldState<F>,
    tries: usize,
    iterations: usize,
) -> (r: BatchRunData)
    requires
        old(world).wf(),
        tries <= u32::MAX,
    ensures
        final(world).wf(),
        r.wf(),
        r.run_count == tries,
        exists|outcomes: Seq<i64>|
            #![trigger outcomes.len()]
            outcomes.len() == tries && r == folded_outcomes(outcomes),
{
    let mut run_stats = BatchRunData::new();
    let ghost mut observed: Seq<i64> = Seq::empty();
    let mut t: usize = 0;
    while t < tries
        invariant
            t <= tries,
            tries <= u32::MAX,
            world.wf(),
            run_stats.wf(),
            run_stats.run_count == t,
            observed.len() == t,
            run_stats == folded_outcomes(observed),
        decreases tries - t,
    {
        world.do_all_iterations(iterations);
        run_stats.record(world.best_solution_value);
        proof {
            let extended = observed.push(world.best_solution_value);
            assert(extended.drop_last() =~= observed);
            observed = extended;
        }
        world.reset();
        t += 1;
    }
    run_stats
}

/// One lane's work on a butterfly population; see [`run_lane_bats`].
pub fn run_lane_butterflies<F: Function>(
    world: &mut crate::butterflies::WorldState<F>,
    tries: usize,
    iterations: usize,
) -> (r: BatchRunData)
    requires
        old(world).wf(),
        tries <= u32::MAX,
    ensures
        final(world).wf(),
        r.wf(),
        r.run_count == tries,
        exists|outcomes: Seq<i64>|
            #![trigger outcomes.len()]
            outcomes.len() == tries && r == folded_outcomes(outcomes),
{
    let mut run_stats = BatchRunData::new();
    let ghost mut observed: Seq<i64> = Seq::empty();
    let mut t: usize = 0;
    while t < tries
        invariant
            t <= tries,
            tries <= u32::MAX,
            world.wf(),
            run_stats.wf(),
            run_stats.run_count == t,
            observed.len() == t,
            run_stats == folded_outcomes(observed),
        decreases tries - t,
    {
        world.do_all_iterations(iterations);
        run_stats.record(world.best_solution_value);
        proof {
            let extended = observed.push(world.best_solution_value);
            assert(extended.drop_last() =~= observed);
            observed = extended;
        }
        world.reset();
        t += 1;
    }
    run_stats
}

/// Run a whole batch of bat-population trials over the given lanes, one
/// population per lane, and merge the lanes' statistics.  The merged
/// count is exactly the sum of the lanes' executed trials, and covers
/// at least the requested count.
pub fn run_batch_bats<F: Function>(
    lanes: &mut Vec<crate::bats::WorldState<F>>,
    trial_count: usize,
    iterations: usize,
) -> (r: BatchRunData)
    requires
        old(lanes)@.len() >= 1,
        forall|i: int| 0 <= i < old(lanes)@.len() ==> (#[trigger] old(lanes)@[i]).wf(),
        old(lanes)@.len() * per_lane_spec(trial_count as int, old(lanes)@.len() as int)
            <= u32::MAX,
    ensures
        r.wf(),
        r.run_count == final(lanes)@.len() * per_lane_spec(
            trial_count as int,
            final(lanes)@.len() as int,
        ),
        r.run_count >= trial_count,
        final(lanes)@.len() == old(lanes)@.len(),
        exists|lane_stats: Seq<BatchRunData>, all_outcomes: Seq<Seq<i64>>|
            #![trigger lane_stats.len(), all_outcomes.len()]
            {
                &&& lane_stats.len() == final(lanes)@.len()
                &&& all_outcomes.len() == final(lanes)@.len()
                &&& forall|l: int|
                    0 <= l < lane_stats.len() ==> (#[trigger] all_outcomes[l]).len()
                        == per_lane_spec(trial_count as int, final(lanes)@.len() as int)
                        && lane_stats[l] == folded_outcomes(all_outcomes[l])
                &&& r == merged_all(lane_stats)
            },
{
    let lane_count = lanes.len();
    let tries = tries_per_lane(trial_count, lane_count);
    proof {
        crate::batch::lemma_lanes_cover_request(trial_count as int, lane_count as int);
        assert(tries <= lane_count * tries) by (nonlinear_arith)
            requires
                lane_count >= 1,
                tries >= 0,
        ;
    }
    let mut merged = BatchRunData::new();
    let ghost mut lane_records: Seq<BatchRunData> = Seq::empty();
    let ghost mut lane_outcomes: Seq<Seq<i64>> = Seq::empty();
    let mut lane: usize = 0;
    while lane < lane_count
        invariant
            lane <= lane_count,
            lanes@.len() == lane_count,
            tries == per_lane_spec(trial_count as int, lane_count as int),
            lane_count * tries <= u32::MAX,
            merged.wf(),
            merged.run_count == lane * tries,
            lane_records.len() == lane,
            lane_outcomes.len() == lane,
            forall|l: int|
                0 <= l < lane ==> (#[trigger] lane_outcomes[l]).len() == tries
                    && lane_records[l] == folded_outcomes(lane_outcomes[l]),
            merged == merged_all(lane_records),
            forall|i: int| 0 <= i < lane_count ==> (#[trigger] lanes@[i]).wf(),
        decreases lane_count - lane,
    {
        proof {
            assert((lane + 1) * tries <= lane_count * tries && lane * tries + tries == (lane + 1)
                * tries) by (nonlinear_arith)
                requires
                    0 <= lane < lane_count,
                    tries >= 0,
            ;
        }
        let world = &mut lanes[lane];
        let lane_stats = run_lane_bats(world, tries, iterations);
        merged.merge_with(&lane_stats);
        proof {
            let observed = choose|o: Seq<i64>|
                #![trigger o.len()]
                o.len() == tries && lane_stats == folded_outcomes(o);
            let records_extended = lane_records.push(lane_stats);
            assert(records_extended.drop_last() =~= lane_records);
            lane_records = records_extended;
            let outcomes_extended = lane_outcomes.push(observed);
            assert(outcomes_extended.drop_last() =~= lane_outcomes);
            lane_outcomes = outcomes_extended;
        }
        lane += 1;
    }
    merged
}

/// Run a whole batch of butterfly-population trials over the given
/// lanes; see [`run_batch_bats`].
pub fn run_batch_butterflies<F: Function>(
    lanes: &mut Vec<crate::butterflies::WorldState<F>>,
    trial_count: usize,
    iterations: usize,
) -> (r: BatchRunData)
    requires
        old(lanes)@.len() >= 1,
        forall|i: int| 0 <= i < old(lanes)@.len() ==> (#[trigger] old(lanes)@[i]).wf(),
        old(lanes)@.len() * per_lane_spec(trial_count as int, old(lanes)@.len() as int)
            <= u32::MAX,
    ensures
        r.wf(),
        r.run_count == final(lanes)@.len() * per_lane_spec(
            trial_count as int,
            final(lanes)@.len() as int,
        ),
        r.run_count >= trial_count,
        final(lanes)@.len() == old(lanes)@.len(),
        exists|lane_stats: Seq<BatchRunData>, all_outcomes: Seq<Seq<i64>>|
            #![trigger lane_stats.len(), all_outcomes.len()]
            {
                &&& lane_stats.len() == final(lanes)@.len()
                &&& all_outcomes.len() == final(lanes)@.len()
                &&& forall|l: int|
                    0 <= l < lane_stats.len() ==> (#[trigger] all_outcomes[l]).len()
                        == per_lane_spec(trial_count as int, final(lanes)@.len() as int)
                        && lane_stats[l] == folded_outcomes(all_outcomes[l])
                &&& r == merged_all(lane_stats)
            },
{
    let lane_count = lanes.len();
    let tries = tries_per_lane(trial_count, lane_count);
    proof {
        crate::batch::lemma_lanes_cover_request(trial_count as int, lane_count as int);
        assert(tries <= lane_count * tries) by (nonlinear_arith)
            requires
                lane_count >= 1,
                tries >= 0,
        ;
    }
    let mut merged = BatchRunData::new();
    let ghost mut lane_records: Seq<BatchRunData> = Seq::empty();
    let ghost mut lane_outcomes: Seq<Seq<i64>> = Seq::empty();
    let mut lane: usize = 0;
    while lane < lane_count
        invariant
            lane <= lane_count,
            lanes@.len() == lane_count,
            tries == per_lane_spec(trial_count as int, lane_count as int),
            lane_count * tries <= u32::MAX,
            merged.wf(),
            merged.run_count == lane * tries,
            lane_records.len() == lane,
            lane_outcomes.len() == lane,
            forall|l: int|
                0 <= l < lane ==> (#[trigger] lane_outcomes[l]).len() == tries
                    && lane_records[l] == folded_outcomes(lane_outcomes[l]),
            merged == merged_all(lane_records),
            forall|i: int| 0 <= i < lane_count ==> (#[trigger] lanes@[i]).wf(),
        decreases lane_count - lane,
    {
        proof {
            assert((lane + 1) * tries <= lane_count * tries && lane * tries + tries == (lane + 1)
                * tries) by (nonlinear_arith)
                requires
                    0 <= lane < lane_count,
                    tries >= 0,
            ;
        }
        let world = &mut lanes[lane];
        let lane_stats = run_lane_butterflies(world, tries, iterations);
        merged.merge_with(&lane_stats);
        proof {
            let observed = choose|o: Seq<i64>|
                #![trigger o.len()]
                o.len() == tries && lane_stats == folded_outcomes(o);
            let records_extended = lane_records.push(lane_stats);
            assert(records_extended.drop_last() =~= lane_records);
            lane_records = records_extended;
            let outcomes_extended = lane_outcomes.push(observed);
            assert(outcomes_extended.drop_last() =~= lane_outcomes);
            lane_outcomes = outcomes_extended;
        }
        lane += 1;
    }
    merged
}

} // verus!
