//! The butterfly-optimization population.
//!
//! Each agent carries a position, its cached fitness, and a fragrance
//! value derived from fitness; a generation snapshots the population,
//! then lets every agent take either a global step toward the previous
//! generation's best position or a local step between two random peers,
//! each scaled by the agent's fragrance raised to an annealed exponent.
//! The population's best known value never increases.

use vstd::prelude::*;

use rand::rngs::StdRng;

use crate::functions::{eval_bounded_below, ConfigError, Function};
use crate::rng::{rand_in_range, rand_index};
use crate::scalar::{
    clamp_i64, clamp_int, div_total, min_int, mul_down, mul_scaled, pow_frac, pow_frac_spec,
    sat64, sat_add, sat_sub, SCALE,
};
use crate::vector::{
    seq_clamped, seq_in_bounds, seq_in_range, seq_sat_add, seq_sat_sub, seq_scaled, VectorN,
};

verus! {

/// The guard added to the denominator of every fragrance quotient, one
/// tick of scale, so that a zero fitness cannot divide by zero.
pub const EPSILON: i64 = 1;

/// The fragrance of a fitness against a reference fitness: their
/// quotient, the denominator guarded by [`EPSILON`].
pub open spec fn fragrance_spec(fitness: int, reference: int) -> int {
    div_total(fitness, sat64(reference + EPSILON))
}

/// Compute a fragrance value.  Total: defined for every pair of
/// fitnesses, a zero denominator propagating a saturated value instead
/// of faulting.
pub fn fragrance_of(fitness: i64, reference: i64) -> (r: i64)
    ensures
        r == fragrance_spec(fitness as int, reference as int),
{
    crate::scalar::div_scaled(fitness, sat_add(reference, EPSILON))
}

/// A non-negative fitness yields a non-negative fragrance against a
/// non-negative reference, as the registry's objectives produce.
pub proof fn lemma_fragrance_nonneg(fitness: int, reference: int)
    requires
        0 <= fitness <= i64::MAX,
        0 <= reference <= i64::MAX,
    ensures
        0 <= fragrance_spec(fitness, reference),
{
    let d = sat64(reference + EPSILON);
    assert(1 <= d <= i64::MAX);
    assert(fitness * SCALE >= 0) by (nonlinear_arith)
        requires
            fitness >= 0,
            SCALE > 0,
    ;
    vstd::arithmetic::div_mod::lemma_div_pos_is_pos(fitness * SCALE, d);
}

/// The fragrance exponent of one generation: the configured lower bound
/// plus the configured span scaled by the whole quotient of iteration
/// index over iteration count.  The quotient truncates, so the exponent
/// sits at the lower bound for every index below the count; that step
/// schedule is a deliberate policy choice, not smoothed here.
pub open spec fn exponent_spec(lo: int, hi: int, iteration: int, count: int) -> int {
    sat64(lo + sat64(sat64(hi - lo) * (iteration / count)))
}

/// Executable form of [`exponent_spec`].
pub fn fragrance_exponent(lo: i64, hi: i64, iteration: usize, count: usize) -> (r: i64)
    requires
        count >= 1,
    ensures
        r == exponent_spec(lo as int, hi as int, iteration as int, count as int),
{
    let q: u64 = (iteration as u64) / (count as u64);
    let span: i64 = sat_sub(hi, lo);
    proof {
        assert(i128::MIN <= span as int * q as int <= i128::MAX) by (nonlinear_arith)
            requires
                i64::MIN <= span as int <= i64::MAX,
                0 <= q as int <= u64::MAX,
        ;
    }
    let p: i128 = (span as i128) * (q as i128);
    let scaled_span: i64 = if p > i64::MAX as i128 {
        i64::MAX
    } else if p < i64::MIN as i128 {
        i64::MIN
    } else {
        p as i64
    };
    sat_add(lo, scaled_span)
}

/// One agent of the butterfly population.
pub struct Butterfly {
    /// Current candidate solution.
    pub position: VectorN,
    /// Fitness of `position`, cached at every move.
    pub current_fitness: i64,
    /// Attraction strength signal derived from fitness.
    pub fragrance_value: i64,
    /// Configured factor every step's strength is scaled by.
    pub fragrance_multiplier: i64,
    /// Best fitness this agent has seen; `i64::MAX` until the first
    /// evaluation, the placeholder for an infinite starting value.
    pub best_solution_value: i64,
    /// Domain interval the position is clamped into.
    pub bounds: (i64, i64),
}

/// Marks the scalars one step drew — a unit draw and two peer indices —
/// as the trigger of the step relations' quantifiers.
pub open spec fn drew_step(r: i64, peer_a: int, peer_b: int) -> bool {
    true
}

/// The attraction strength of one step of `pre`: the configured
/// multiplier times the fragrance — clipped into the unit interval,
/// which the power kernel asks for — raised to the generation's
/// exponent.
pub open spec fn step_strength_spec(pre: Butterfly, fragrance_exponent: i64) -> int {
    mul_down(
        pre.fragrance_multiplier as int,
        pow_frac_spec(
            clamp_int(pre.fragrance_value as int, 0, SCALE as int),
            fragrance_exponent as int,
        ),
    )
}

/// Where one search step lands: the agent pulled by the difference of
/// `attractor` — weighted by the squared unit draw — and `repeller`,
/// scaled by its fragrance strength, then clamped into its domain.
pub open spec fn stepped_position(
    pre: Butterfly,
    attractor: Seq<i64>,
    repeller: Seq<i64>,
    r: i64,
    fragrance_exponent: i64,
) -> Seq<i64> {
    let r2 = (mul_down(r as int, r as int) as i64);
    let strength = (step_strength_spec(pre, fragrance_exponent) as i64);
    seq_clamped(
        seq_sat_add(
            pre.position@,
            seq_scaled(seq_sat_sub(seq_scaled(attractor, r2), repeller), strength),
        ),
        pre.bounds.0,
        pre.bounds.1,
    )
}

impl Butterfly {
    /// The position has the population's dimension.
    pub open spec fn wf(&self, dimension: int) -> bool {
        self.position@.len() == dimension
    }

    /// A freshly drawn agent: position uniform in the domain interval,
    /// fitness evaluated there, fragrance of that fitness against
    /// itself, no best seen yet.
    pub fn new<F: Function>(
        lower_bound: i64,
        upper_bound: i64,
        function: &F,
        fragrance_multiplier: i64,
        random_source: &mut StdRng,
        dimension: usize,
    ) -> (r: Butterfly)
        requires
            lower_bound < upper_bound,
        ensures
            r.wf(dimension as int),
            seq_in_range(r.position@, lower_bound, upper_bound),
            r.current_fitness == function.spec_eval(r.position@),
            r.fragrance_value == fragrance_spec(
                r.current_fitness as int,
                r.current_fitness as int,
            ),
            r.fragrance_multiplier == fragrance_multiplier,
            r.best_solution_value == i64::MAX,
            r.bounds == (lower_bound, upper_bound),
    {
        let mut coordinates: Vec<i64> = Vec::new();
        let mut k: usize = 0;
        while k < dimension
            invariant
                k <= dimension,
                coordinates@.len() == k,
                lower_bound < upper_bound,
                seq_in_range(coordinates@, lower_bound, upper_bound),
            decreases dimension - k,
        {
            coordinates.push(rand_in_range(random_source, lower_bound, upper_bound));
            k += 1;
        }
        let position = VectorN::new(coordinates);
        let current_fitness = function.calculate(&position);
        let fragrance_value = fragrance_of(current_fitness, current_fitness);
        Butterfly {
            position,
            current_fitness,
            fragrance_value,
            fragrance_multiplier,
            best_solution_value: i64::MAX,
            bounds: (lower_bound, upper_bound),
        }
    }

    /// An owned copy with the same state, for the pre-generation
    /// snapshot.
    pub fn duplicate(&self) -> (r: Butterfly)
        ensures
            r.position@ == self.position@,
            r.current_fitness == self.current_fitness,
            r.fragrance_value == self.fragrance_value,
            r.fragrance_multiplier == self.fragrance_multiplier,
            r.best_solution_value == self.best_solution_value,
            r.bounds == self.bounds,
    {
        Butterfly {
            position: self.position.duplicate(),
            current_fitness: self.current_fitness,
            fragrance_value: self.fragrance_value,
            fragrance_multiplier: self.fragrance_multiplier,
            best_solution_value: self.best_solution_value,
            bounds: self.bounds,
        }
    }

    /// The attraction strength of one step: the multiplier times the
    /// fragrance — clipped into the unit interval — raised to the
    /// generation's exponent.
    fn step_strength(&self, fragrance_exponent: i64) -> (r: i64)
        ensures
            r as int == step_strength_spec(*self, fragrance_exponent),
    {
        let frag = clamp_i64(self.fragrance_value, 0, SCALE);
        mul_scaled(self.fragrance_multiplier, pow_frac(frag, fragrance_exponent))
    }

    /// The common tail of both search steps: clamp into the domain,
    /// re-evaluate, and recompute the fragrance against the previous
    /// generation's best fitness.
    fn finish_step<F: Function>(&mut self, best_fitness: i64, function: &F)
        ensures
            final(self).position@ == crate::vector::seq_clamped(
                old(self).position@,
                old(self).bounds.0,
                old(self).bounds.1,
            ),
            final(self).current_fitness == function.spec_eval(final(self).position@),
            final(self).fragrance_value == fragrance_spec(
                final(self).current_fitness as int,
                best_fitness as int,
            ),
            final(self).fragrance_multiplier == old(self).fragrance_multiplier,
            final(self).best_solution_value == old(self).best_solution_value,
            final(self).bounds == old(self).bounds,
    {
        let bounds = self.bounds;
        self.position.clamp(bounds);
        self.current_fitness = function.calculate(&self.position);
        self.fragrance_value = fragrance_of(self.current_fitness, best_fitness);
    }

    /// Global step: move toward the previous generation's best
    /// position, weighted by a squared unit draw and the fragrance
    /// strength; then clamp, re-evaluate and re-scent.
    pub fn global_search_step<F: Function>(
        &mut self,
        best_position: &VectorN,
        fragrance_exponent: i64,
        best_fitness: i64,
        function: &F,
        random_source: &mut StdRng,
    ) requires
        best_position@.len() == old(self).position@.len(),
        old(self).bounds.0 <= old(self).bounds.1,
    ensures
        final(self).position@.len() == old(self).position@.len(),
        seq_in_bounds(final(self).position@, final(self).bounds.0, final(self).bounds.1),
        final(self).current_fitness == function.spec_eval(final(self).position@),
        final(self).fragrance_value == fragrance_spec(
            final(self).current_fitness as int,
            best_fitness as int,
        ),
        final(self).fragrance_multiplier == old(self).fragrance_multiplier,
        final(self).best_solution_value == old(self).best_solution_value,
        final(self).bounds == old(self).bounds,
        exists|r: i64|
            #[trigger] drew_step(r, 0, 0) && 0 <= r < SCALE && final(self).position@
                == stepped_position(
                *old(self),
                best_position@,
                old(self).position@,
                r,
                fragrance_exponent,
            ),
    {
        let r = rand_in_range(random_source, 0, SCALE);
        let r2 = mul_scaled(r, r);
        let strength = self.step_strength(fragrance_exponent);
        let pull = best_position.scale(r2).sub_vec(&self.position).scale(strength);
        self.position.add_assign_vec(&pull);
        self.finish_step(best_fitness, function);
        proof {
            crate::vector::lemma_clamp_in_bounds(self.position@, self.bounds.0, self.bounds.1);
            assert(drew_step(r, 0, 0));
            assert(self.position@ == stepped_position(
                *old(self),
                best_position@,
                old(self).position@,
                r,
                fragrance_exponent,
            ));
        }
    }

    /// Local step: move between two peers of the previous generation's
    /// snapshot, weighted like the global step; then clamp, re-evaluate
    /// and re-scent.
    pub fn local_search_step<F: Function>(
        &mut self,
        peer_a: &VectorN,
        peer_b: &VectorN,
        fragrance_exponent: i64,
        best_fitness: i64,
        function: &F,
        random_source: &mut StdRng,
    ) requires
        peer_a@.len() == old(self).position@.len(),
        peer_b@.len() == old(self).position@.len(),
        old(self).bounds.0 <= old(self).bounds.1,
    ensures
        final(self).position@.len() == old(self).position@.len(),
        seq_in_bounds(final(self).position@, final(self).bounds.0, final(self).bounds.1),
        final(self).current_fitness == function.spec_eval(final(self).position@),
        final(self).fragrance_value == fragrance_spec(
            final(self).current_fitness as int,
            best_fitness as int,
        ),
        final(self).fragrance_multiplier == old(self).fragrance_multiplier,
        final(self).best_solution_value == old(self).best_solution_value,
        final(self).bounds == old(self).bounds,
        exists|r: i64|
            #[trigger] drew_step(r, 0, 0) && 0 <= r < SCALE && final(self).position@
                == stepped_position(*old(self), peer_a@, peer_b@, r, fragrance_exponent),
    {
        let r = rand_in_range(random_source, 0, SCALE);
        let r2 = mul_scaled(r, r);
        let strength = self.step_strength(fragrance_exponent);
        let pull = peer_a.scale(r2).sub_vec(peer_b).scale(strength);
        self.position.add_assign_vec(&pull);
        self.finish_step(best_fitness, function);
        proof {
            crate::vector::lemma_clamp_in_bounds(self.position@, self.bounds.0, self.bounds.1);
            assert(drew_step(r, 0, 0));
            assert(self.position@ == stepped_position(
                *old(self),
                peer_a@,
                peer_b@,
                r,
                fragrance_exponent,
            ));
        }
    }

    /// Reinitialize in place for a fresh trial: new random position,
    /// fitness and fragrance as at construction, no best seen.
    pub fn reset<F: Function>(
        &mut self,
        lower_bound: i64,
        upper_bound: i64,
        function: &F,
        random_source: &mut StdRng,
    ) requires
        lower_bound < upper_bound,
    ensures
        final(self).position@.len() == old(self).position@.len(),
        seq_in_range(final(self).position@, lower_bound, upper_bound),
        final(self).current_fitness == function.spec_eval(final(self).position@),
        final(self).fragrance_value == fragrance_spec(
            final(self).current_fitness as int,
            final(self).current_fitness as int,
        ),
        final(self).fragrance_multiplier == old(self).fragrance_multiplier,
        final(self).best_solution_value == i64::MAX,
        final(self).bounds == old(self).bounds,
    {
        let dimension = self.position.dimension();
        let mut coordinates: Vec<i64> = Vec::new();
        let mut k: usize = 0;
        while k < dimension
            invariant
                k <= dimension,
                coordinates@.len() == k,
                lower_bound < upper_bound,
                seq_in_range(coordinates@, lower_bound, upper_bound),
            decreases dimension - k,
        {
            coordinates.push(rand_in_range(random_source, lower_bound, upper_bound));
            k += 1;
        }
        self.position = VectorN::new(coordinates);
        self.current_fitness = function.calculate(&self.position);
        self.fragrance_value = fragrance_of(self.current_fitness, self.current_fitness);
        self.best_solution_value = i64::MAX;
    }
}

/// Least cached fitness among the first `k` agents; `i64::MAX` — the
/// placeholder for an infinite starting value — over an empty prefix.
pub open spec fn fitness_prefix_min(butterflys: Seq<Butterfly>, k: int) -> int
    decreases k,
{
    if k <= 0 {
        i64::MAX as int
    } else {
        min_int(fitness_prefix_min(butterflys, k - 1), butterflys[k - 1].current_fitness as int)
    }
}

/// The prefix minimum depends only on the agents' cached fitnesses.
pub proof fn lemma_fitness_prefix_min_congruent(a: Seq<Butterfly>, b: Seq<Butterfly>, k: int)
    requires
        0 <= k <= a.len(),
        k <= b.len(),
        forall|i: int| 0 <= i < k ==> (#[trigger] a[i]).current_fitness == b[i].current_fitness,
    ensures
        fitness_prefix_min(a, k) == fitness_prefix_min(b, k),
    decreases k,
{
    if k > 0 {
        lemma_fitness_prefix_min_congruent(a, b, k - 1);
    }
}

/// One generation's step of a single agent against the previous
/// generation: it moved either toward a previous agent of least cached
/// fitness or between two previous peers, weighted by the squared unit
/// draw and its fragrance strength; its fitness was re-evaluated where
/// it landed and its fragrance re-derived against the generation's
/// least fitness.  The agent's own best does not move here.
pub open spec fn butterfly_stepped<F: Function>(
    pre: Butterfly,
    post: Butterfly,
    previous: Seq<Butterfly>,
    previous_best_fitness: int,
    fragrance_exponent: i64,
    f: F,
) -> bool {
    &&& post.fragrance_multiplier == pre.fragrance_multiplier
    &&& post.best_solution_value == pre.best_solution_value
    &&& post.bounds == pre.bounds
    &&& post.current_fitness == f.spec_eval(post.position@)
    &&& post.fragrance_value == fragrance_spec(post.current_fitness as int, previous_best_fitness)
    &&& exists|r: i64, peer_a: int, peer_b: int|
        #[trigger] drew_step(r, peer_a, peer_b) && 0 <= r < SCALE && 0 <= peer_a < previous.len()
            && 0 <= peer_b < previous.len() && {
            ||| (previous[peer_a].current_fitness as int == previous_best_fitness
                && post.position@ == stepped_position(
                pre,
                previous[peer_a].position@,
                pre.position@,
                r,
                fragrance_exponent,
            ))
            ||| post.position@ == stepped_position(
                pre,
                previous[peer_a].position@,
                previous[peer_b].position@,
                r,
                fragrance_exponent,
            )
        }
}

/// The bookkeeping applied to one agent after its step: its cached
/// fitness folds into its own best; nothing else moves.
pub open spec fn butterfly_rescored(pre: Butterfly, post: Butterfly) -> bool {
    &&& post.position == pre.position
    &&& post.current_fitness == pre.current_fitness
    &&& post.fragrance_value == pre.fragrance_value
    &&& post.fragrance_multiplier == pre.fragrance_multiplier
    &&& post.bounds == pre.bounds
    &&& post.best_solution_value == min_int(
        pre.best_solution_value as int,
        pre.current_fitness as int,
    )
}

/// A fitness floor of the objective is a floor of every prefix minimum
/// of cached fitnesses the objective produced, as long as it does not
/// exceed the starting placeholder.
pub proof fn lemma_fitness_prefix_min_bounded<F: Function>(
    f: F,
    butterflys: Seq<Butterfly>,
    k: int,
    bound: int,
)
    requires
        eval_bounded_below(f, bound),
        bound <= i64::MAX,
        forall|i: int|
            0 <= i < k ==> (#[trigger] butterflys[i]).current_fitness == f.spec_eval(
                butterflys[i].position@,
            ),
    ensures
        fitness_prefix_min(butterflys, k) >= bound,
    decreases k,
{
    if k > 0 {
        lemma_fitness_prefix_min_bounded(f, butterflys, k - 1, bound);
    }
}

/// One generation's effect on the whole population, as
/// [`WorldState::do_iteration`] states it: some stepped intermediate
/// population, rescored agent by agent, with the best known value the
/// minimum of its old value and the fresh fitnesses — attained by some
/// agent whenever it decreased.
pub open spec fn generation_rel<F: Function>(
    pre: WorldState<F>,
    post: WorldState<F>,
    iteration: int,
    iteration_count: int,
) -> bool {
    &&& post.wf()
    &&& post.butterflys@.len() == pre.butterflys@.len()
    &&& post.function == pre.function
    &&& post.bounds == pre.bounds
    &&& post.dimension == pre.dimension
    &&& post.fragrance_multiplier == pre.fragrance_multiplier
    &&& post.fragrance_exponent_bounds == pre.fragrance_exponent_bounds
    &&& post.local_search_chance == pre.local_search_chance
    &&& exists|stepped: Seq<Butterfly>|
        #![trigger stepped.len()]
        {
            &&& stepped.len() == post.butterflys@.len()
            &&& forall|i: int|
                0 <= i < stepped.len() ==> butterfly_stepped(
                    pre.butterflys@[i],
                    #[trigger] stepped[i],
                    pre.butterflys@,
                    fitness_prefix_min(pre.butterflys@, pre.butterflys@.len() as int),
                    (exponent_spec(
                        pre.fragrance_exponent_bounds.0 as int,
                        pre.fragrance_exponent_bounds.1 as int,
                        iteration,
                        iteration_count,
                    ) as i64),
                    pre.function,
                ) && butterfly_rescored(stepped[i], post.butterflys@[i])
        }
    &&& post.best_solution_value == min_int(
        pre.best_solution_value as int,
        fitness_prefix_min(post.butterflys@, post.butterflys@.len() as int),
    )
    &&& (post.best_solution_value < pre.best_solution_value ==> exists|i: int|
        0 <= i < post.butterflys@.len() && (#[trigger] post.butterflys@[i]).position@
            == post.best_solution@ && post.function.spec_eval(post.best_solution@)
            == post.best_solution_value)
}

/// A population of butterfly agents with its objective, domain, shared
/// randomness source, best known solution, and the step configuration.
pub struct WorldState<F: Function> {
    /// The agents, in a stable but semantically irrelevant order.
    pub butterflys: Vec<Butterfly>,
    /// The objective being minimized.
    pub function: F,
    /// Position of the best fitness observed since the last reset; the
    /// all-zero vector until a finite fitness is observed.
    pub best_solution: VectorN,
    /// Least fitness observed since the last reset; `i64::MAX` stands
    /// for an infinite starting value.
    pub best_solution_value: i64,
    /// Domain interval, `lower < upper`.
    pub bounds: (i64, i64),
    /// The one randomness stream of this population.
    pub random_generator: StdRng,
    /// Configured factor every step's strength is scaled by.
    pub fragrance_multiplier: i64,
    /// Interval the annealed fragrance exponent is interpolated over.
    pub fragrance_exponent_bounds: (i64, i64),
    /// Chance, per agent and generation, of the local step.
    pub local_search_chance: i64,
    /// Dimension of every vector of this population.
    pub dimension: usize,
}

impl<F: Function> WorldState<F> {
    /// The population's invariant: ordered bounds, at least one agent,
    /// every agent shaped to the population's dimension and domain, and
    /// every agent's cached fitness the objective's value at its
    /// position.
    pub open spec fn wf(&self) -> bool {
        &&& self.bounds.0 < self.bounds.1
        &&& self.butterflys@.len() >= 1
        &&& self.best_solution@.len() == self.dimension
        &&& forall|i: int|
            0 <= i < self.butterflys@.len() ==> (#[trigger] self.butterflys@[i]).wf(
                self.dimension as int,
            )
        &&& forall|i: int|
            0 <= i < self.butterflys@.len() ==> (#[trigger] self.butterflys@[i]).bounds
                == self.bounds
        &&& forall|i: int|
            0 <= i < self.butterflys@.len() ==> (#[trigger] self.butterflys@[i]).current_fitness
                == self.function.spec_eval(self.butterflys@[i].position@)
    }

    /// The least cached fitness over all agents.
    pub open spec fn population_min(&self) -> int {
        fitness_prefix_min(self.butterflys@, self.butterflys@.len() as int)
    }

    /// Build a population: validate the configuration, draw and
    /// evaluate the agents, and record the least fitness found as the
    /// best known solution.
    pub fn new(
        butterfly_count: usize,
        function: F,
        bounds: (i64, i64),
        fragrance_multiplier: i64,
        fragrance_exponent_bounds: (i64, i64),
        local_search_chance: i64,
        random_generator: StdRng,
        dimension: usize,
    ) -> (r: Result<WorldState<F>, ConfigError>)
        requires
            butterfly_count >= 1,
        ensures
            bounds.0 >= bounds.1 ==> r == Err::<WorldState<F>, ConfigError>(
                ConfigError::InvalidDomainBounds,
            ),
            bounds.0 < bounds.1 && fragrance_exponent_bounds.0 >= fragrance_exponent_bounds.1
                ==> r == Err::<WorldState<F>, ConfigError>(
                ConfigError::InvalidFragranceExponentBounds,
            ),
            r is Ok <==> bounds.0 < bounds.1 && fragrance_exponent_bounds.0
                < fragrance_exponent_bounds.1,
            r matches Ok(w) ==> {
                &&& w.wf()
                &&& w.butterflys@.len() == butterfly_count
                &&& w.function == function
                &&& w.bounds == bounds
                &&& w.dimension == dimension
                &&& w.fragrance_multiplier == fragrance_multiplier
                &&& w.fragrance_exponent_bounds == fragrance_exponent_bounds
                &&& w.local_search_chance == local_search_chance
                &&& w.best_solution_value == w.population_min()
                &&& forall|i: int|
                    0 <= i < w.butterflys@.len() ==> {
                        &&& seq_in_range(
                            (#[trigger] w.butterflys@[i]).position@,
                            bounds.0,
                            bounds.1,
                        )
                        &&& w.butterflys@[i].fragrance_multiplier == fragrance_multiplier
                        &&& w.butterflys@[i].best_solution_value == i64::MAX
                    }
                &&& (w.best_solution_value < i64::MAX ==> exists|i: int|
                    0 <= i < w.butterflys@.len() && (#[trigger] w.butterflys@[i]).position@
                        == w.best_solution@ && w.function.spec_eval(w.best_solution@)
                        == w.best_solution_value)
            },
    {
        if bounds.0 >= bounds.1 {
            return Err(ConfigError::InvalidDomainBounds);
        }
        if fragrance_exponent_bounds.0 >= fragrance_exponent_bounds.1 {
            return Err(ConfigError::InvalidFragranceExponentBounds);
        }
        let mut random_generator = random_generator;
        let mut butterflys: Vec<Butterfly> = Vec::new();
        let mut k: usize = 0;
        while k < butterfly_count
            invariant
                k <= butterfly_count,
                butterflys@.len() == k,
                bounds.0 < bounds.1,
                forall|i: int|
                    0 <= i < k ==> {
                        &&& (#[trigger] butterflys@[i]).wf(dimension as int)
                        &&& butterflys@[i].bounds == bounds
                        &&& seq_in_range(butterflys@[i].position@, bounds.0, bounds.1)
                        &&& butterflys@[i].current_fitness == function.spec_eval(
                            butterflys@[i].position@,
                        )
                        &&& butterflys@[i].fragrance_multiplier == fragrance_multiplier
                        &&& butterflys@[i].best_solution_value == i64::MAX
                    },
            decreases butterfly_count - k,
        {
            let butterfly = Butterfly::new(
                bounds.0,
                bounds.1,
                &function,
                fragrance_multiplier,
                &mut random_generator,
                dimension,
            );
            butterflys.push(butterfly);
            k += 1;
        }
        let mut best_solution = VectorN::zero(dimension);
        let mut best_solution_value: i64 = i64::MAX;
        let ghost mut best_index: int = 0;
        let mut j: usize = 0;
        while j < butterfly_count
            invariant
                j <= butterfly_count,
                butterflys@.len() == butterfly_count,
                best_solution_value == fitness_prefix_min(butterflys@, j as int),
                best_solution@.len() == dimension,
                forall|i: int|
                    0 <= i < butterfly_count ==> (#[trigger] butterflys@[i]).wf(dimension as int),
                forall|i: int|
                    0 <= i < butterfly_count ==> (#[trigger] butterflys@[i]).current_fitness
                        == function.spec_eval(butterflys@[i].position@),
                best_solution_value < i64::MAX ==> 0 <= best_index < j
                    && butterflys@[best_index].position@ == best_solution@ && function.spec_eval(
                    best_solution@,
                ) == best_solution_value,
            decreases butterfly_count - j,
        {
            let value = butterflys[j].current_fitness;
            if value < best_solution_value {
                best_solution = butterflys[j].position.duplicate();
                best_solution_value = value;
                proof {
                    best_index = j as int;
                }
            }
            j += 1;
        }
        Ok(
            WorldState {
                butterflys,
                function,
                best_solution,
                best_solution_value,
                bounds,
                random_generator,
                fragrance_multiplier,
                fragrance_exponent_bounds,
                local_search_chance,
                dimension,
            },
        )
    }

    /// Start a fresh trial: reinitialize every agent and recompute the
    /// best known solution from the fresh population.
    pub fn reset(&mut self)
        requires
            old(self).wf(),
        ensures
            final(self).wf(),
            final(self).butterflys@.len() == old(self).butterflys@.len(),
            final(self).function == old(self).function,
            final(self).bounds == old(self).bounds,
            final(self).dimension == old(self).dimension,
            final(self).fragrance_multiplier == old(self).fragrance_multiplier,
            final(self).fragrance_exponent_bounds == old(self).fragrance_exponent_bounds,
            final(self).local_search_chance == old(self).local_search_chance,
            forall|i: int|
                0 <= i < final(self).butterflys@.len() ==> {
                    &&& (#[trigger] final(self).butterflys@[i]).best_solution_value == i64::MAX
                    &&& seq_in_range(
                        final(self).butterflys@[i].position@,
                        old(self).bounds.0,
                        old(self).bounds.1,
                    )
                },
            final(self).best_solution_value == final(self).population_min(),
            final(self).best_solution_value < i64::MAX ==> exists|i: int|
                0 <= i < final(self).butterflys@.len()
                    && (#[trigger] final(self).butterflys@[i]).position@
                    == final(self).best_solution@
                    && final(self).function.spec_eval(final(self).best_solution@)
                    == final(self).best_solution_value,
    {
        let butterfly_count = self.butterflys.len();
        let mut best_solution = VectorN::zero(self.dimension);
        let mut best_solution_value: i64 = i64::MAX;
        let ghost mut best_index: int = 0;
        let mut j: usize = 0;
        while j < butterfly_count
            invariant
                j <= butterfly_count,
                self.butterflys@.len() == butterfly_count,
                old(self).butterflys@.len() == butterfly_count,
                old(self).wf(),
                self.bounds == old(self).bounds,
                self.dimension == old(self).dimension,
                self.function == old(self).function,
                self.best_solution == old(self).best_solution,
                self.best_solution_value == old(self).best_solution_value,
                self.fragrance_multiplier == old(self).fragrance_multiplier,
                self.fragrance_exponent_bounds == old(self).fragrance_exponent_bounds,
                self.local_search_chance == old(self).local_search_chance,
                best_solution@.len() == self.dimension,
                best_solution_value == fitness_prefix_min(self.butterflys@, j as int),
                forall|i: int|
                    0 <= i < butterfly_count ==> (#[trigger] self.butterflys@[i]).wf(
                        self.dimension as int,
                    ),
                forall|i: int|
                    0 <= i < butterfly_count ==> (#[trigger] self.butterflys@[i]).bounds
                        == self.bounds,
                forall|i: int|
                    0 <= i < butterfly_count ==> (#[trigger] self.butterflys@[i]).current_fitness
                        == self.function.spec_eval(self.butterflys@[i].position@),
                forall|i: int|
                    0 <= i < j ==> {
                        &&& (#[trigger] self.butterflys@[i]).best_solution_value == i64::MAX
                        &&& seq_in_range(
                            self.butterflys@[i].position@,
                            old(self).bounds.0,
                            old(self).bounds.1,
                        )
                    },
                best_solution_value < i64::MAX ==> 0 <= best_index < j
                    && self.butterflys@[best_index].position@ == best_solution@
                    && self.function.spec_eval(best_solution@) == best_solution_value,
            decreases butterfly_count - j,
        {
            let bounds = self.bounds;
            let ghost prev = self.butterflys@;
            let butterfly = &mut self.butterflys[j];
            butterfly.reset(bounds.0, bounds.1, &self.function, &mut self.random_generator);
            proof {
                lemma_fitness_prefix_min_congruent(self.butterflys@, prev, j as int);
            }
            let value = self.butterflys[j].current_fitness;
            if value < best_solution_value {
                best_solution = self.butterflys[j].position.duplicate();
                best_solution_value = value;
                proof {
                    best_index = j as int;
                }
            }
            j += 1;
        }
        self.best_solution = best_solution;
        self.best_solution_value = best_solution_value;
    }

    /// One generation of stochastic steps: snapshot the population,
    /// find the previous generation's best agent, compute the annealed
    /// exponent, and let every agent take its local or global step
    /// against the snapshot.  Cached fitnesses and fragrances move;
    /// the global bookkeeping does not.
    pub fn move_butterflys(&mut self, iter_number: usize, iteration_count: usize)
        requires
            old(self).wf(),
            iteration_count >= 1,
        ensures
            final(self).wf(),
            final(self).butterflys@.len() == old(self).butterflys@.len(),
            final(self).function == old(self).function,
            final(self).bounds == old(self).bounds,
            final(self).dimension == old(self).dimension,
            final(self).fragrance_multiplier == old(self).fragrance_multiplier,
            final(self).fragrance_exponent_bounds == old(self).fragrance_exponent_bounds,
            final(self).local_search_chance == old(self).local_search_chance,
            final(self).best_solution == old(self).best_solution,
            final(self).best_solution_value == old(self).best_solution_value,
            forall|i: int|
                0 <= i < final(self).butterflys@.len() ==> {
                    &&& seq_in_bounds(
                        (#[trigger] final(self).butterflys@[i]).position@,
                        old(self).bounds.0,
                        old(self).bounds.1,
                    )
                    &&& final(self).butterflys@[i].fragrance_value == fragrance_spec(
                        final(self).butterflys@[i].current_fitness as int,
                        fitness_prefix_min(old(self).butterflys@, old(self).butterflys@.len() as int),
                    )
                    &&& final(self).butterflys@[i].best_solution_value
                        == old(self).butterflys@[i].best_solution_value
                },
            forall|i: int|
                0 <= i < final(self).butterflys@.len() ==> butterfly_stepped(
                    old(self).butterflys@[i],
                    #[trigger] final(self).butterflys@[i],
                    old(self).butterflys@,
                    fitness_prefix_min(old(self).butterflys@, old(self).butterflys@.len() as int),
                    (exponent_spec(
                        old(self).fragrance_exponent_bounds.0 as int,
                        old(self).fragrance_exponent_bounds.1 as int,
                        iter_number as int,
                        iteration_count as int,
                    ) as i64),
                    old(self).function,
                ),
    {
        let butterfly_count = self.butterflys.len();
        let mut snapshot: Vec<Butterfly> = Vec::new();
        let mut k: usize = 0;
        while k < butterfly_count
            invariant
                k <= butterfly_count,
                self.butterflys@.len() == butterfly_count,
                snapshot@.len() == k,
                self.wf(),
                forall|i: int|
                    0 <= i < k ==> (#[trigger] snapshot@[i]).position@
                        == self.butterflys@[i].position@,
                forall|i: int|
                    0 <= i < k ==> (#[trigger] snapshot@[i]).current_fitness
                        == self.butterflys@[i].current_fitness,
            decreases butterfly_count - k,
        {
            snapshot.push(self.butterflys[k].duplicate());
            k += 1;
        }
        let mut previous_best_fitness: i64 = i64::MAX;
        let mut previous_best_index: usize = 0;
        let mut m: usize = 0;
        while m < butterfly_count
            invariant
                m <= butterfly_count,
                snapshot@.len() == butterfly_count,
                self.butterflys@.len() == butterfly_count,
                previous_best_index < butterfly_count,
                m == 0 ==> previous_best_index == 0,
                previous_best_fitness == fitness_prefix_min(snapshot@, m as int),
                m >= 1 ==> snapshot@[previous_best_index as int].current_fitness
                    == previous_best_fitness,
            decreases butterfly_count - m,
        {
            let value = snapshot[m].current_fitness;
            if value < previous_best_fitness {
                previous_best_fitness = value;
                previous_best_index = m;
            }
            m += 1;
        }
        proof {
            lemma_fitness_prefix_min_congruent(
                snapshot@,
                self.butterflys@,
                butterfly_count as int,
            );
        }
        let previous_best_position = snapshot[previous_best_index].position.duplicate();
        let exponent = fragrance_exponent(
            self.fragrance_exponent_bounds.0,
            self.fragrance_exponent_bounds.1,
            iter_number,
            iteration_count,
        );
        let mut j: usize = 0;
        while j < butterfly_count
            invariant
                j <= butterfly_count,
                self.butterflys@.len() == butterfly_count,
                old(self).butterflys@.len() == butterfly_count,
                old(self).wf(),
                snapshot@.len() == butterfly_count,
                self.bounds == old(self).bounds,
                self.dimension == old(self).dimension,
                self.function == old(self).function,
                self.best_solution == old(self).best_solution,
                self.best_solution_value == old(self).best_solution_value,
                self.fragrance_multiplier == old(self).fragrance_multiplier,
                self.fragrance_exponent_bounds == old(self).fragrance_exponent_bounds,
                self.local_search_chance == old(self).local_search_chance,
                previous_best_fitness == fitness_prefix_min(
                    old(self).butterflys@,
                    butterfly_count as int,
                ),
                previous_best_index < butterfly_count,
                previous_best_position@ == old(self).butterflys@[previous_best_index as int].position@,
                old(self).butterflys@[previous_best_index as int].current_fitness
                    == previous_best_fitness,
                exponent as int == exponent_spec(
                    old(self).fragrance_exponent_bounds.0 as int,
                    old(self).fragrance_exponent_bounds.1 as int,
                    iter_number as int,
                    iteration_count as int,
                ),
                previous_best_position@.len() == self.dimension,
                forall|i: int|
                    0 <= i < butterfly_count ==> (#[trigger] snapshot@[i]).position@
                        == old(self).butterflys@[i].position@,
                forall|i: int|
                    0 <= i < butterfly_count ==> (#[trigger] snapshot@[i]).current_fitness
                        == old(self).butterflys@[i].current_fitness,
                forall|i: int|
                    0 <= i < butterfly_count ==> (#[trigger] snapshot@[i]).position@.len()
                        == self.dimension,
                forall|i: int|
                    j <= i < butterfly_count ==> #[trigger] self.butterflys@[i]
                        == old(self).butterflys@[i],
                forall|i: int|
                    0 <= i < j ==> butterfly_stepped(
                        old(self).butterflys@[i],
                        #[trigger] self.butterflys@[i],
                        old(self).butterflys@,
                        previous_best_fitness as int,
                        exponent,
                        old(self).function,
                    ),
                forall|i: int|
                    0 <= i < j ==> {
                        &&& (#[trigger] self.butterflys@[i]).wf(self.dimension as int)
                        &&& self.butterflys@[i].bounds == old(self).bounds
                        &&& seq_in_bounds(
                            self.butterflys@[i].position@,
                            old(self).bounds.0,
                            old(self).bounds.1,
                        )
                        &&& self.butterflys@[i].current_fitness == self.function.spec_eval(
                            self.butterflys@[i].position@,
                        )
                        &&& self.butterflys@[i].fragrance_value == fragrance_spec(
                            self.butterflys@[i].current_fitness as int,
                            previous_best_fitness as int,
                        )
                        &&& self.butterflys@[i].best_solution_value
                            == old(self).butterflys@[i].best_solution_value
                    },
            decreases butterfly_count - j,
        {
            let draw = rand_in_range(&mut self.random_generator, 0, SCALE);
            if draw < self.local_search_chance {
                let index_a = rand_index(&mut self.random_generator, butterfly_count);
                let index_b = rand_index(&mut self.random_generator, butterfly_count);
                let peer_a = snapshot[index_a].position.duplicate();
                let peer_b = snapshot[index_b].position.duplicate();
                let butterfly = &mut self.butterflys[j];
                butterfly.local_search_step(
                    &peer_a,
                    &peer_b,
                    exponent,
                    previous_best_fitness,
                    &self.function,
                    &mut self.random_generator,
                );
                proof {
                    let pre = old(self).butterflys@[j as int];
                    let rd = choose|r: i64|
                        drew_step(r, 0, 0) && 0 <= r < SCALE && self.butterflys@[j as int].position@
                            == stepped_position(pre, peer_a@, peer_b@, r, exponent);
                    assert(drew_step(rd, 0, 0) && 0 <= rd < SCALE
                        && self.butterflys@[j as int].position@ == stepped_position(
                        pre,
                        peer_a@,
                        peer_b@,
                        rd,
                        exponent,
                    ));
                    assert(peer_a@ == old(self).butterflys@[index_a as int].position@);
                    assert(peer_b@ == old(self).butterflys@[index_b as int].position@);
                    assert(self.butterflys@[j as int].position@ == stepped_position(
                        pre,
                        old(self).butterflys@[index_a as int].position@,
                        old(self).butterflys@[index_b as int].position@,
                        rd,
                        exponent,
                    ));
                    assert(drew_step(rd, index_a as int, index_b as int));
                    assert(butterfly_stepped(
                        pre,
                        self.butterflys@[j as int],
                        old(self).butterflys@,
                        previous_best_fitness as int,
                        exponent,
                        old(self).function,
                    ));
                }
            } else {
                let butterfly = &mut self.butterflys[j];
                butterfly.global_search_step(
                    &previous_best_position,
                    exponent,
                    previous_best_fitness,
                    &self.function,
                    &mut self.random_generator,
                );
                proof {
                    let pre = old(self).butterflys@[j as int];
                    let rd = choose|r: i64|
                        drew_step(r, 0, 0) && 0 <= r < SCALE && self.butterflys@[j as int].position@
                            == stepped_position(
                            pre,
                            previous_best_position@,
                            pre.position@,
                            r,
                            exponent,
                        );
                    assert(drew_step(rd, 0, 0) && 0 <= rd < SCALE
                        && self.butterflys@[j as int].position@ == stepped_position(
                        pre,
                        previous_best_position@,
                        pre.position@,
                        rd,
                        exponent,
                    ));
                    assert(self.butterflys@[j as int].position@ == stepped_position(
                        pre,
                        old(self).butterflys@[previous_best_index as int].position@,
                        pre.position@,
                        rd,
                        exponent,
                    ));
                    assert(drew_step(rd, previous_best_index as int, 0));
                    assert(butterfly_stepped(
                        pre,
                        self.butterflys@[j as int],
                        old(self).butterflys@,
                        previous_best_fitness as int,
                        exponent,
                        old(self).function,
                    ));
                }
            }
            j += 1;
        }
    }

    /// Fold the generation's fresh fitnesses into the best known
    /// solution and every agent's own best.  The best known value
    /// cannot increase.
    pub fn update_best_known_solution(&mut self)
        requires
            old(self).wf(),
        ensures
            final(self).wf(),
            final(self).butterflys@.len() == old(self).butterflys@.len(),
            final(self).function == old(self).function,
            final(self).bounds == old(self).bounds,
            final(self).dimension == old(self).dimension,
            final(self).fragrance_multiplier == old(self).fragrance_multiplier,
            final(self).fragrance_exponent_bounds == old(self).fragrance_exponent_bounds,
            final(self).local_search_chance == old(self).local_search_chance,
            final(self).best_solution_value == min_int(
                old(self).best_solution_value as int,
                fitness_prefix_min(old(self).butterflys@, old(self).butterflys@.len() as int),
            ),
            final(self).best_solution_value <= old(self).best_solution_value,
            final(self).best_solution_value < old(self).best_solution_value ==> exists|i: int|
                0 <= i < final(self).butterflys@.len()
                    && (#[trigger] final(self).butterflys@[i]).position@
                    == final(self).best_solution@
                    && final(self).function.spec_eval(final(self).best_solution@)
                    == final(self).best_solution_value,
            final(self).best_solution_value == old(self).best_solution_value
                ==> final(self).best_solution == old(self).best_solution,
            forall|i: int|
                0 <= i < final(self).butterflys@.len() ==> {
                    &&& (#[trigger] final(self).butterflys@[i]).position
                        == old(self).butterflys@[i].position
                    &&& final(self).butterflys@[i].current_fitness
                        == old(self).butterflys@[i].current_fitness
                    &&& final(self).butterflys@[i].fragrance_value
                        == old(self).butterflys@[i].fragrance_value
                    &&& final(self).butterflys@[i].fragrance_multiplier
                        == old(self).butterflys@[i].fragrance_multiplier
                    &&& final(self).butterflys@[i].bounds == old(self).butterflys@[i].bounds
                    &&& final(self).butterflys@[i].best_solution_value == min_int(
                        old(self).butterflys@[i].best_solution_value as int,
                        old(self).butterflys@[i].current_fitness as int,
                    )
                },
            forall|i: int|
                0 <= i < final(self).butterflys@.len()
                    ==> (#[trigger] final(self).butterflys@[i]).best_solution_value
                    <= final(self).butterflys@[i].current_fitness,
    {
        let butterfly_count = self.butterflys.len();
        let ghost mut best_index: int = 0;
        let mut j: usize = 0;
        while j < butterfly_count
            invariant
                j <= butterfly_count,
                self.butterflys@.len() == butterfly_count,
                old(self).butterflys@.len() == butterfly_count,
                old(self).wf(),
                self.bounds == old(self).bounds,
                self.dimension == old(self).dimension,
                self.function == old(self).function,
                self.fragrance_multiplier == old(self).fragrance_multiplier,
                self.fragrance_exponent_bounds == old(self).fragrance_exponent_bounds,
                self.local_search_chance == old(self).local_search_chance,
                self.best_solution@.len() == self.dimension,
                self.best_solution_value == min_int(
                    old(self).best_solution_value as int,
                    fitness_prefix_min(old(self).butterflys@, j as int),
                ),
                self.best_solution_value <= old(self).best_solution_value,
                self.best_solution_value < old(self).best_solution_value ==> 0 <= best_index < j
                    && self.butterflys@[best_index].position@ == self.best_solution@
                    && self.function.spec_eval(self.best_solution@) == self.best_solution_value,
                self.best_solution_value == old(self).best_solution_value ==> self.best_solution
                    == old(self).best_solution,
                forall|i: int|
                    j <= i < butterfly_count ==> #[trigger] self.butterflys@[i]
                        == old(self).butterflys@[i],
                forall|i: int|
                    0 <= i < j ==> {
                        &&& (#[trigger] self.butterflys@[i]).position
                            == old(self).butterflys@[i].position
                        &&& self.butterflys@[i].current_fitness
                            == old(self).butterflys@[i].current_fitness
                        &&& self.butterflys@[i].fragrance_value
                            == old(self).butterflys@[i].fragrance_value
                        &&& self.butterflys@[i].bounds == old(self).butterflys@[i].bounds
                        &&& self.butterflys@[i].fragrance_multiplier
                            == old(self).butterflys@[i].fragrance_multiplier
                        &&& self.butterflys@[i].best_solution_value == min_int(
                            old(self).butterflys@[i].best_solution_value as int,
                            old(self).butterflys@[i].current_fitness as int,
                        )
                    },
            decreases butterfly_count - j,
        {
            let value = self.butterflys[j].current_fitness;
            if value < self.best_solution_value {
                self.best_solution_value = value;
                self.best_solution = self.butterflys[j].position.duplicate();
                proof {
                    best_index = j as int;
                }
            }
            let own_best = self.butterflys[j].best_solution_value;
            if value < own_best {
                let butterfly = &mut self.butterflys[j];
                butterfly.best_solution_value = value;
            }
            j += 1;
        }
    }

    /// One generation: the stochastic steps, then the bookkeeping.
    /// Every agent of the final state is a search-step outcome of its
    /// old state rescored by its fresh fitness; the best known value is
    /// the minimum of its old value and those fitnesses, and never
    /// increases.
    pub fn do_iteration(&mut self, iter_number: usize, iteration_count: usize)
        requires
            old(self).wf(),
            iteration_count >= 1,
        ensures
            final(self).wf(),
            final(self).butterflys@.len() == old(self).butterflys@.len(),
            final(self).function == old(self).function,
            final(self).bounds == old(self).bounds,
            final(self).dimension == old(self).dimension,
            final(self).fragrance_multiplier == old(self).fragrance_multiplier,
            final(self).fragrance_exponent_bounds == old(self).fragrance_exponent_bounds,
            final(self).local_search_chance == old(self).local_search_chance,
            exists|stepped: Seq<Butterfly>|
                #![trigger stepped.len()]
                {
                    &&& stepped.len() == final(self).butterflys@.len()
                    &&& forall|i: int|
                        0 <= i < stepped.len() ==> butterfly_stepped(
                            old(self).butterflys@[i],
                            #[trigger] stepped[i],
                            old(self).butterflys@,
                            fitness_prefix_min(
                                old(self).butterflys@,
                                old(self).butterflys@.len() as int,
                            ),
                            (exponent_spec(
                                old(self).fragrance_exponent_bounds.0 as int,
                                old(self).fragrance_exponent_bounds.1 as int,
                                iter_number as int,
                                iteration_count as int,
                            ) as i64),
                            old(self).function,
                        ) && butterfly_rescored(stepped[i], final(self).butterflys@[i])
                },
            final(self).best_solution_value == min_int(
                old(self).best_solution_value as int,
                fitness_prefix_min(
                    final(self).butterflys@,
                    final(self).butterflys@.len() as int,
                ),
            ),
            final(self).best_solution_value <= old(self).best_solution_value,
            final(self).best_solution_value < old(self).best_solution_value ==> exists|i: int|
                0 <= i < final(self).butterflys@.len() && (#[trigger] final(self).butterflys@[i]).position@ == final(self).best_solution@ && final(self).function.spec_eval(final(self).best_solution@) == final(self).best_solution_value,
            forall|i: int|
                0 <= i < final(self).butterflys@.len() ==> seq_in_bounds(
                    (#[trigger] final(self).butterflys@[i]).position@,
                    old(self).bounds.0,
                    old(self).bounds.1,
                ),
            forall|bound: int|
                #[trigger] eval_bounded_below(final(self).function, bound) && old(self).best_solution_value >= bound ==> final(self).best_solution_value >= bound,
            forall|i: int|
                0 <= i < final(self).butterflys@.len()
                    ==> (#[trigger] final(self).butterflys@[i]).best_solution_value
                    <= final(self).butterflys@[i].current_fitness,
            generation_rel(*old(self), *final(self), iter_number as int, iteration_count as int),
    {
        self.move_butterflys(iter_number, iteration_count);
        let ghost mid_butterflys = self.butterflys@;
        self.update_best_known_solution();
        proof {
            lemma_fitness_prefix_min_congruent(
                self.butterflys@,
                mid_butterflys,
                self.butterflys@.len() as int,
            );
            assert(mid_butterflys.len() == self.butterflys@.len());
            assert forall|i: int| 0 <= i < mid_butterflys.len() implies butterfly_stepped(
                old(self).butterflys@[i],
                #[trigger] mid_butterflys[i],
                old(self).butterflys@,
                fitness_prefix_min(old(self).butterflys@, old(self).butterflys@.len() as int),
                (exponent_spec(
                    old(self).fragrance_exponent_bounds.0 as int,
                    old(self).fragrance_exponent_bounds.1 as int,
                    iter_number as int,
                    iteration_count as int,
                ) as i64),
                old(self).function,
            ) && butterfly_rescored(mid_butterflys[i], self.butterflys@[i]) by {}
            assert forall|bound: int|
                #[trigger] eval_bounded_below(self.function, bound) && old(self).best_solution_value >= bound implies self.best_solution_value >= bound by {
                lemma_fitness_prefix_min_bounded(
                    self.function,
                    self.butterflys@,
                    self.butterflys@.len() as int,
                    bound,
                );
            }
            assert(generation_rel(*old(self), *self, iter_number as int, iteration_count as int));
        }
    }

    /// Run the whole fixed budget of generations, in order.  The best
    /// known value never increases.
    pub fn do_all_iterations(&mut self, iterations: usize)
        requires
            old(self).wf(),
        ensures
            final(self).wf(),
            final(self).butterflys@.len() == old(self).butterflys@.len(),
            final(self).function == old(self).function,
            final(self).bounds == old(self).bounds,
            final(self).dimension == old(self).dimension,
            final(self).fragrance_multiplier == old(self).fragrance_multiplier,
            final(self).fragrance_exponent_bounds == old(self).fragrance_exponent_bounds,
            final(self).local_search_chance == old(self).local_search_chance,
            final(self).best_solution_value <= old(self).best_solution_value,
            iterations == 0 ==> *final(self) == *old(self),
            iterations >= 1 ==> forall|i: int|
                0 <= i < final(self).butterflys@.len() ==> seq_in_bounds(
                    (#[trigger] final(self).butterflys@[i]).position@,
                    old(self).bounds.0,
                    old(self).bounds.1,
                ),
            forall|bound: int|
                #[trigger] eval_bounded_below(final(self).function, bound) && old(self).best_solution_value >= bound ==> final(self).best_solution_value >= bound,
            iterations >= 1 ==> forall|i: int|
                0 <= i < final(self).butterflys@.len()
                    ==> (#[trigger] final(self).butterflys@[i]).best_solution_value
                    <= final(self).butterflys@[i].current_fitness,
            exists|trace: Seq<WorldState<F>>|
                #![trigger trace.len()]
                {
                    &&& trace.len() == iterations + 1
                    &&& trace[0] == *old(self)
                    &&& trace[iterations as int] == *final(self)
                    &&& forall|k: int|
                        0 <= k < iterations ==> generation_rel(
                            #[trigger] trace[k],
                            trace[k + 1],
                            k,
                            iterations as int,
                        )
                },
    {
        let ghost mut trace: Seq<WorldState<F>> = seq![*old(self)];
        let mut iter: usize = 0;
        while iter < iterations
            invariant
                iter <= iterations,
                trace.len() == iter + 1,
                trace[0] == *old(self),
                trace[iter as int] == *self,
                forall|k: int|
                    0 <= k < iter ==> generation_rel(
                        #[trigger] trace[k],
                        trace[k + 1],
                        k,
                        iterations as int,
                    ),
                self.wf(),
                self.butterflys@.len() == old(self).butterflys@.len(),
                self.function == old(self).function,
                self.bounds == old(self).bounds,
                self.dimension == old(self).dimension,
                self.fragrance_multiplier == old(self).fragrance_multiplier,
                self.fragrance_exponent_bounds == old(self).fragrance_exponent_bounds,
                self.local_search_chance == old(self).local_search_chance,
                self.best_solution_value <= old(self).best_solution_value,
                iter == 0 ==> *self == *old(self),
                iter >= 1 ==> forall|i: int|
                    0 <= i < self.butterflys@.len() ==> seq_in_bounds(
                        (#[trigger] self.butterflys@[i]).position@,
                        old(self).bounds.0,
                        old(self).bounds.1,
                    ),
                forall|bound: int|
                    #[trigger] eval_bounded_below(self.function, bound) && old(self).best_solution_value >= bound ==> self.best_solution_value >= bound,
                iter >= 1 ==> forall|i: int|
                    0 <= i < self.butterflys@.len()
                        ==> (#[trigger] self.butterflys@[i]).best_solution_value
                        <= self.butterflys@[i].current_fitness,
            decreases iterations - iter,
        {
            self.do_iteration(iter, iterations);
            proof {
                trace = trace.push(*self);
            }
            iter += 1;
        }
    }
}

} // verus!
