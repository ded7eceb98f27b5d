//! The bat-algorithm population.
//!
//! Each agent carries a position and velocity, a frequency interval, an
//! adaptive pulse rate and loudness, and the best fitness it has seen.
//! A generation moves every agent toward the population's best known
//! position, re-evaluates it, and adapts the parameters of the agents
//! whose own best strictly improved.  The population's best known value
//! never increases between generations.

use vstd::prelude::*;

use rand::rngs::StdRng;

use crate::functions::{eval_bounded_below, ConfigError, Function};
use crate::rng::rand_in_range;
use crate::scalar::{min_int, mul_down, mul_scaled, trunc_div, SCALE};
use crate::vector::{
    seq_clamped, seq_in_bounds, seq_in_range, seq_plus_scalar, seq_sat_add, seq_sat_sub,
    seq_scaled, VectorN,
};

verus! {

/// The adaptive pulse-rate schedule: the configured rate scaled by a
/// ramp that starts at zero and rises toward one as improvements
/// accumulate over the iterations, standing in for the exponential
/// saturation `1 - exp(-factor * iteration)` of the literature.
pub open spec fn pulse_ramp_spec(factor: int, iteration: int) -> int {
    let t = if factor * iteration <= 0 {
        0
    } else if factor * iteration >= i64::MAX {
        i64::MAX as int
    } else {
        factor * iteration
    };
    trunc_div(t * SCALE, SCALE + t)
}

/// The pulse rate after an improvement at the given iteration.
pub open spec fn pulse_schedule_spec(original: int, factor: int, iteration: int) -> int {
    mul_down(original, pulse_ramp_spec(factor, iteration))
}

/// The ramp stays in the unit interval, whatever the configuration.
pub proof fn lemma_pulse_ramp_bounds(factor: int, iteration: int)
    ensures
        0 <= pulse_ramp_spec(factor, iteration) < SCALE,
{
    let p = factor * iteration;
    let t = if p <= 0 {
        0
    } else if p >= i64::MAX {
        i64::MAX as int
    } else {
        p
    };
    let num = t * SCALE;
    let den = SCALE + t;
    assert(num >= 0 && num < SCALE * den) by (nonlinear_arith)
        requires
            num == t * SCALE,
            den == SCALE + t,
            0 <= t,
            SCALE > 0,
    ;
    let q = num / den;
    assert(pulse_ramp_spec(factor, iteration) == q);
    vstd::arithmetic::div_mod::lemma_fundamental_div_mod(num, den);
    vstd::arithmetic::div_mod::lemma_mod_bound(num, den);
    assert(0 <= q < SCALE) by (nonlinear_arith)
        requires
            num == den * q + num % den,
            0 <= num % den < den,
            0 <= num < SCALE * den,
            den > 0,
    ;
}

/// The ramp rises with the iteration index: later improvements get a
/// pulse rate at least as close to the configured one, for a
/// non-negative growth factor.
pub proof fn lemma_pulse_ramp_monotone(factor: int, earlier: int, later: int)
    requires
        factor >= 0,
        0 <= earlier <= later,
    ensures
        pulse_ramp_spec(factor, earlier) <= pulse_ramp_spec(factor, later),
{
    assert(0 <= factor * earlier <= factor * later) by (nonlinear_arith)
        requires
            factor >= 0,
            0 <= earlier <= later,
    ;
    let p1 = factor * earlier;
    let p2 = factor * later;
    let t1 = if p1 <= 0 {
        0
    } else if p1 >= i64::MAX {
        i64::MAX as int
    } else {
        p1
    };
    let t2 = if p2 <= 0 {
        0
    } else if p2 >= i64::MAX {
        i64::MAX as int
    } else {
        p2
    };
    assert(0 <= t1 <= t2);
    let a1 = t1 * SCALE;
    let b1 = SCALE + t1;
    let a2 = t2 * SCALE;
    let b2 = SCALE + t2;
    let q1 = a1 / b1;
    let q2 = a2 / b2;
    assert(a1 >= 0 && a2 >= 0 && a1 * b2 <= a2 * b1) by (nonlinear_arith)
        requires
            a1 == t1 * SCALE,
            a2 == t2 * SCALE,
            b1 == SCALE + t1,
            b2 == SCALE + t2,
            0 <= t1 <= t2,
            SCALE > 0,
    ;
    assert(pulse_ramp_spec(factor, earlier) == q1);
    assert(pulse_ramp_spec(factor, later) == q2);
    vstd::arithmetic::div_mod::lemma_fundamental_div_mod(a1, b1);
    vstd::arithmetic::div_mod::lemma_mod_bound(a1, b1);
    vstd::arithmetic::div_mod::lemma_fundamental_div_mod(a2, b2);
    vstd::arithmetic::div_mod::lemma_mod_bound(a2, b2);
    assert(q1 * b2 <= a2) by (nonlinear_arith)
        requires
            a1 == b1 * q1 + a1 % b1,
            0 <= a1 % b1 < b1,
            a1 * b2 <= a2 * b1,
            b1 > 0,
            b2 > 0,
            a2 >= 0,
    ;
    assert(q1 <= q2) by (nonlinear_arith)
        requires
            q1 * b2 <= a2,
            a2 == b2 * q2 + a2 % b2,
            0 <= a2 % b2 < b2,
            b2 > 0,
    ;
}

/// The whole schedule rises with the iteration index.
pub proof fn lemma_pulse_schedule_monotone(original: int, factor: int, earlier: int, later: int)
    requires
        0 <= original <= i64::MAX,
        factor >= 0,
        0 <= earlier <= later,
    ensures
        pulse_schedule_spec(original, factor, earlier) <= pulse_schedule_spec(
            original,
            factor,
            later,
        ),
{
    lemma_pulse_ramp_monotone(factor, earlier, later);
    lemma_pulse_ramp_bounds(factor, earlier);
    lemma_pulse_ramp_bounds(factor, later);
    let r1 = pulse_ramp_spec(factor, earlier);
    let r2 = pulse_ramp_spec(factor, later);
    assert(0 <= original * r1 <= original * r2) by (nonlinear_arith)
        requires
            0 <= original,
            0 <= r1 <= r2,
    ;
    vstd::arithmetic::div_mod::lemma_div_is_ordered(original * r1, original * r2, SCALE as int);
    vstd::arithmetic::div_mod::lemma_div_pos_is_pos(original * r1, SCALE as int);
}

/// On every improvement the loudness decays: scaling by a unit-interval
/// cooling factor never grows it and never takes it below zero.
pub proof fn lemma_loudness_decays(loudness: int, cooling_factor: int)
    requires
        0 <= loudness <= i64::MAX,
        0 <= cooling_factor <= SCALE,
    ensures
        0 <= mul_down(loudness, cooling_factor) <= loudness,
{
    crate::scalar::lemma_mul_down_contract(loudness, cooling_factor);
}

/// The scheduled pulse rate rises from zero toward the originally
/// configured rate and never overshoots it, for a non-negative
/// configured rate.
pub proof fn lemma_pulse_rate_bounded(original: int, factor: int, iteration: int)
    requires
        0 <= original <= i64::MAX,
    ensures
        0 <= pulse_schedule_spec(original, factor, iteration) <= original,
{
    lemma_pulse_ramp_bounds(factor, iteration);
    crate::scalar::lemma_mul_down_contract(original, pulse_ramp_spec(factor, iteration));
}

/// The ramp of the pulse-rate schedule, as executable arithmetic.
pub fn pulse_ramp(factor: i64, iteration_number: usize) -> (r: i64)
    ensures
        r == pulse_ramp_spec(factor as int, iteration_number as int),
        0 <= r < SCALE,
{
    proof {
        assert(i128::MIN <= factor as int * iteration_number as int <= i128::MAX)
            by (nonlinear_arith)
            requires
                i64::MIN <= factor as int <= i64::MAX,
                0 <= iteration_number as int <= u64::MAX,
        ;
    }
    let p: i128 = (factor as i128) * (iteration_number as i128);
    let t: i64 = if p <= 0 {
        0
    } else if p >= i64::MAX as i128 {
        i64::MAX
    } else {
        p as i64
    };
    let num: i128 = crate::scalar::widening_mul(t, SCALE);
    let den: i128 = (SCALE as i128) + (t as i128);
    let q: i128 = match num.checked_div(den) {
        Some(v) => v,
        None => 0,
    };
    proof {
        assert(num >= 0 && num < SCALE * den) by (nonlinear_arith)
            requires
                num == t as int * SCALE,
                den == SCALE + t as int,
                0 <= t as int,
                SCALE > 0,
        ;
        assert(q == trunc_div(num as int, den as int));
        assert(q == num as int / den as int);
        vstd::arithmetic::div_mod::lemma_fundamental_div_mod(num as int, den as int);
        vstd::arithmetic::div_mod::lemma_mod_bound(num as int, den as int);
        assert(q < SCALE) by (nonlinear_arith)
            requires
                num == den * q + num % den,
                0 <= num % den < den,
                num < SCALE * den,
                den > 0,
        ;
        assert(q >= 0) by (nonlinear_arith)
            requires
                num == den * q + num % den,
                0 <= num % den < den,
                num >= 0,
                den > 0,
        ;
    }
    q as i64
}

/// One agent of the bat population.
pub struct Bat {
    /// Current candidate solution.
    pub position: VectorN,
    /// Current velocity, accumulated across generations.
    pub velocity: VectorN,
    /// Interval the per-move frequency is drawn from.
    pub frequency_bounds: (i64, i64),
    /// Configured pulse rate the current one rises toward.
    pub original_pulse_rate: i64,
    /// Chance, per move, of the loudness random walk.
    pub current_pulse_rate: i64,
    /// Growth factor of the pulse-rate ramp.
    pub pulse_rate_factor: i64,
    /// Radius of the random walk; decays on every improvement.
    pub loudness: i64,
    /// Factor the loudness decays by.
    pub loudness_cool_factor: i64,
    /// Best fitness this agent has seen; `i64::MAX` until the first
    /// evaluation, the placeholder for an infinite starting value.
    pub best_solution_value: i64,
    /// Domain interval the position is clamped into.
    pub bounds: (i64, i64),
}

/// Marks the three scalars one move drew — a frequency, a pulse-rate
/// chance, a walk length — as the trigger of the step relation's
/// quantifier.
pub open spec fn drew(frequency: i64, chance: i64, walk: i64) -> bool {
    true
}

/// One move of a single agent, over the scalars it drew: some
/// frequency of the agent's interval accelerated it toward the best
/// known position, it stepped by its new velocity, took the
/// loudness-sized random walk exactly when its chance draw fell below
/// its pulse rate, and was clamped into its domain.  The adaptive
/// parameters and the best seen fitness do not move.
pub open spec fn bat_moved(pre: Bat, post: Bat, global_best: Seq<i64>, average_loudness: i64) -> bool {
    &&& post.frequency_bounds == pre.frequency_bounds
    &&& post.original_pulse_rate == pre.original_pulse_rate
    &&& post.current_pulse_rate == pre.current_pulse_rate
    &&& post.pulse_rate_factor == pre.pulse_rate_factor
    &&& post.loudness == pre.loudness
    &&& post.loudness_cool_factor == pre.loudness_cool_factor
    &&& post.best_solution_value == pre.best_solution_value
    &&& post.bounds == pre.bounds
    &&& exists|frequency: i64, chance: i64, walk: i64|
        #[trigger] drew(frequency, chance, walk) && {
            let pull = seq_scaled(seq_sat_sub(global_best, pre.position@), frequency);
            let stepped = seq_sat_add(pre.position@, post.velocity@);
            let walked = seq_plus_scalar(
                stepped,
                (mul_down(walk as int, average_loudness as int) as i64),
            );
            &&& pre.frequency_bounds.0 <= frequency < pre.frequency_bounds.1
            &&& 0 <= chance < SCALE
            &&& -SCALE <= walk < SCALE
            &&& post.velocity@ == seq_sat_add(pre.velocity@, pull)
            &&& post.position@ == (if chance < pre.current_pulse_rate {
                seq_clamped(walked, pre.bounds.0, pre.bounds.1)
            } else {
                seq_clamped(stepped, pre.bounds.0, pre.bounds.1)
            })
        }
}

/// The bookkeeping applied to one agent whose fresh fitness is
/// `value`: fold `value` into its best seen, and adapt loudness and
/// pulse rate exactly when its own best strictly improved.  Position
/// and velocity do not move.
pub open spec fn bat_rescored(pre: Bat, post: Bat, value: int, iteration: int) -> bool {
    &&& post.position == pre.position
    &&& post.velocity == pre.velocity
    &&& post.frequency_bounds == pre.frequency_bounds
    &&& post.original_pulse_rate == pre.original_pulse_rate
    &&& post.pulse_rate_factor == pre.pulse_rate_factor
    &&& post.loudness_cool_factor == pre.loudness_cool_factor
    &&& post.bounds == pre.bounds
    &&& post.best_solution_value == min_int(pre.best_solution_value as int, value)
    &&& (value < pre.best_solution_value ==> post.loudness == mul_down(
        pre.loudness as int,
        pre.loudness_cool_factor as int,
    ) && post.current_pulse_rate == pulse_schedule_spec(
        pre.original_pulse_rate as int,
        pre.pulse_rate_factor as int,
        iteration,
    ))
    &&& (value >= pre.best_solution_value ==> post.loudness == pre.loudness
        && post.current_pulse_rate == pre.current_pulse_rate)
}

/// A fitness floor of the objective is a floor of every prefix
/// minimum, as long as it does not exceed the starting placeholder.
pub proof fn lemma_evals_prefix_min_bounded<F: Function>(f: F, bats: Seq<Bat>, k: int, bound: int)
    requires
        eval_bounded_below(f, bound),
        bound <= i64::MAX,
    ensures
        evals_prefix_min(f, bats, k) >= bound,
    decreases k,
{
    if k > 0 {
        lemma_evals_prefix_min_bounded(f, bats, k - 1, bound);
    }
}

/// Saturating sum of the first `k` agents' loudness values.
pub open spec fn loudness_sum_prefix(bats: Seq<Bat>, k: int) -> int
    decreases k,
{
    if k <= 0 {
        0
    } else {
        crate::scalar::sat64(loudness_sum_prefix(bats, k - 1) + bats[k - 1].loudness)
    }
}

/// The mean loudness every agent of one generation shares: the
/// saturating sum of all loudness values divided by the agent count.
pub open spec fn average_loudness_spec(bats: Seq<Bat>) -> int {
    trunc_div(loudness_sum_prefix(bats, bats.len() as int), bats.len() as int)
}

impl Bat {
    /// Both vectors have the population's dimension.
    pub open spec fn wf(&self, dimension: int) -> bool {
        &&& self.position@.len() == dimension
        &&& self.velocity@.len() == dimension
    }

    /// A freshly drawn agent: position uniform in the domain interval,
    /// velocity components uniform in `[0, 1)` of scale (narrower than
    /// the domain on purpose), adaptive parameters from the
    /// configuration, no fitness seen yet.
    pub fn new(
        lower_bound: i64,
        upper_bound: i64,
        min_frequency: i64,
        max_frequency: i64,
        pulse_rate: i64,
        pulse_rate_factor: i64,
        loudness: i64,
        loudness_cool_factor: i64,
        random_source: &mut StdRng,
        dimension: usize,
    ) -> (r: Bat)
        requires
            lower_bound < upper_bound,
        ensures
            r.wf(dimension as int),
            seq_in_range(r.position@, lower_bound, upper_bound),
            seq_in_range(r.velocity@, 0, SCALE),
            r.frequency_bounds == (min_frequency, max_frequency),
            r.original_pulse_rate == pulse_rate,
            r.current_pulse_rate == pulse_rate,
            r.pulse_rate_factor == pulse_rate_factor,
            r.loudness == loudness,
            r.loudness_cool_factor == loudness_cool_factor,
            r.best_solution_value == i64::MAX,
            r.bounds == (lower_bound, upper_bound),
    {
        let mut coordinates: Vec<i64> = Vec::new();
        let mut speed: Vec<i64> = Vec::new();
        let mut k: usize = 0;
        while k < dimension
            invariant
                k <= dimension,
                coordinates@.len() == k,
                speed@.len() == k,
                lower_bound < upper_bound,
                seq_in_range(coordinates@, lower_bound, upper_bound),
                seq_in_range(speed@, 0, SCALE),
            decreases dimension - k,
        {
            coordinates.push(rand_in_range(random_source, lower_bound, upper_bound));
            speed.push(rand_in_range(random_source, 0, SCALE));
            k += 1;
        }
        Bat {
            position: VectorN::new(coordinates),
            velocity: VectorN::new(speed),
            frequency_bounds: (min_frequency, max_frequency),
            original_pulse_rate: pulse_rate,
            current_pulse_rate: pulse_rate,
            pulse_rate_factor,
            loudness,
            loudness_cool_factor,
            best_solution_value: i64::MAX,
            bounds: (lower_bound, upper_bound),
        }
    }

    /// One move: draw a frequency, accelerate toward the population's
    /// best known position, step, possibly take a loudness-sized random
    /// walk, and clamp back into the domain.  The adaptive parameters
    /// and the best seen fitness do not move here.
    pub fn move_bat(
        &mut self,
        global_best_solution: &VectorN,
        random_source: &mut StdRng,
        average_loudness: i64,
    ) requires
        old(self).position@.len() == old(self).velocity@.len(),
        global_best_solution@.len() == old(self).position@.len(),
        old(self).frequency_bounds.0 < old(self).frequency_bounds.1,
        old(self).bounds.0 <= old(self).bounds.1,
    ensures
        final(self).position@.len() == old(self).position@.len(),
        final(self).velocity@.len() == old(self).velocity@.len(),
        seq_in_bounds(final(self).position@, final(self).bounds.0, final(self).bounds.1),
        bat_moved(*old(self), *final(self), global_best_solution@, average_loudness),
    {
        let frequency = rand_in_range(
            random_source,
            self.frequency_bounds.0,
            self.frequency_bounds.1,
        );
        let pull = global_best_solution.sub_vec(&self.position).scale(frequency);
        self.velocity.add_assign_vec(&pull);
        let step = self.velocity.duplicate();
        self.position.add_assign_vec(&step);
        let chance = rand_in_range(random_source, 0, SCALE);
        let walk: i64 = if chance < self.current_pulse_rate {
            rand_in_range(random_source, -SCALE, SCALE)
        } else {
            0
        };
        if chance < self.current_pulse_rate {
            self.position.add_scalar_assign(mul_scaled(walk, average_loudness));
        }
        let bounds = self.bounds;
        self.position.clamp(bounds);
        proof {
            crate::vector::lemma_clamp_in_bounds(self.position@, bounds.0, bounds.1);
            assert(drew(frequency, chance, walk));
            assert(bat_moved(*old(self), *self, global_best_solution@, average_loudness));
        }
    }

    /// Adapt after a strict improvement of this agent's own best: cool
    /// the loudness and raise the pulse rate along its ramp.
    pub fn update_parameters(&mut self, iteration_number: usize)
        ensures
            final(self).loudness == mul_down(
                old(self).loudness as int,
                old(self).loudness_cool_factor as int,
            ),
            final(self).current_pulse_rate == pulse_schedule_spec(
                old(self).original_pulse_rate as int,
                old(self).pulse_rate_factor as int,
                iteration_number as int,
            ),
            final(self).position == old(self).position,
            final(self).velocity == old(self).velocity,
            final(self).frequency_bounds == old(self).frequency_bounds,
            final(self).original_pulse_rate == old(self).original_pulse_rate,
            final(self).pulse_rate_factor == old(self).pulse_rate_factor,
            final(self).loudness_cool_factor == old(self).loudness_cool_factor,
            final(self).best_solution_value == old(self).best_solution_value,
            final(self).bounds == old(self).bounds,
    {
        self.loudness = mul_scaled(self.loudness, self.loudness_cool_factor);
        let ramp = pulse_ramp(self.pulse_rate_factor, iteration_number);
        self.current_pulse_rate = mul_scaled(self.original_pulse_rate, ramp);
    }

    /// Reinitialize in place for a fresh trial: new random position and
    /// velocity, the originally configured pulse rate and loudness, no
    /// fitness seen.
    pub fn reset(
        &mut self,
        lower_bound: i64,
        upper_bound: i64,
        pulse_rate: i64,
        loudness: i64,
        random_source: &mut StdRng,
    ) requires
        lower_bound < upper_bound,
    ensures
        final(self).position@.len() == old(self).position@.len(),
        final(self).velocity@.len() == old(self).velocity@.len(),
        seq_in_range(final(self).position@, lower_bound, upper_bound),
        seq_in_range(final(self).velocity@, 0, SCALE),
        final(self).best_solution_value == i64::MAX,
        final(self).current_pulse_rate == pulse_rate,
        final(self).original_pulse_rate == pulse_rate,
        final(self).loudness == loudness,
        final(self).frequency_bounds == old(self).frequency_bounds,
        final(self).pulse_rate_factor == old(self).pulse_rate_factor,
        final(self).loudness_cool_factor == old(self).loudness_cool_factor,
        final(self).bounds == old(self).bounds,
    {
        let dimension = self.position.dimension();
        let ghost vel_len = self.velocity@.len();
        let mut coordinates: Vec<i64> = Vec::new();
        let mut k: usize = 0;
        while k < dimension
            invariant
                k <= dimension,
                coordinates@.len() == k,
                lower_bound < upper_bound,
                seq_in_range(coordinates@, lower_bound, upper_bound),
            decreases dimension - k,
        {
            coordinates.push(rand_in_range(random_source, lower_bound, upper_bound));
            k += 1;
        }
        let vel_dimension = self.velocity.dimension();
        let mut speed: Vec<i64> = Vec::new();
        let mut j: usize = 0;
        while j < vel_dimension
            invariant
                j <= vel_dimension,
                speed@.len() == j,
                seq_in_range(speed@, 0, SCALE),
            decreases vel_dimension - j,
        {
            speed.push(rand_in_range(random_source, 0, SCALE));
            j += 1;
        }
        self.position = VectorN::new(coordinates);
        self.velocity = VectorN::new(speed);
        self.best_solution_value = i64::MAX;
        self.current_pulse_rate = pulse_rate;
        self.original_pulse_rate = pulse_rate;
        self.loudness = loudness;
    }
}

/// Least fitness among the first `k` agents' positions; `i64::MAX` — the
/// placeholder for an infinite starting value — over an empty prefix.
pub open spec fn evals_prefix_min<F: Function>(f: F, bats: Seq<Bat>, k: int) -> int
    decreases k,
{
    if k <= 0 {
        i64::MAX as int
    } else {
        min_int(evals_prefix_min(f, bats, k - 1), f.spec_eval(bats[k - 1].position@) as int)
    }
}

/// The prefix minimum depends only on the agents' positions.
pub proof fn lemma_evals_prefix_min_congruent<F: Function>(f: F, a: Seq<Bat>, b: Seq<Bat>, k: int)
    requires
        0 <= k <= a.len(),
        k <= b.len(),
        forall|i: int| 0 <= i < k ==> (#[trigger] a[i]).position == b[i].position,
    ensures
        evals_prefix_min(f, a, k) == evals_prefix_min(f, b, k),
    decreases k,
{
    if k > 0 {
        lemma_evals_prefix_min_congruent(f, a, b, k - 1);
    }
}

/// A population of bat agents with its objective, domain, shared
/// randomness source, best known solution, and the initial parameter
/// values a reset restores.
pub struct WorldState<F: Function> {
    /// The agents, in a stable but semantically irrelevant order.
    pub bats: Vec<Bat>,
    /// The objective being minimized.
    pub function: F,
    /// Position of the best fitness observed since the last reset; the
    /// all-zero vector until a finite fitness is observed.
    pub best_solution: VectorN,
    /// Least fitness observed since the last reset; `i64::MAX` stands
    /// for an infinite starting value.
    pub best_solution_value: i64,
    /// Domain interval, `lower < upper`.
    pub bounds: (i64, i64),
    /// The one randomness stream of this population.
    pub random_generator: StdRng,
    /// Configured pulse rate restored on reset.
    pub initial_pulse_rate: i64,
    /// Configured loudness restored on reset.
    pub initial_loudness: i64,
    /// Dimension of every vector of this population.
    pub dimension: usize,
}

/// One generation's effect on the whole population, as
/// [`WorldState::do_iteration`] states it: some moved intermediate
/// population, rescored agent by agent, with the best known value the
/// minimum of its old value and the fresh fitnesses — attained by some
/// agent whenever it decreased.
pub open spec fn generation_rel<F: Function>(
    pre: WorldState<F>,
    post: WorldState<F>,
    iteration: int,
) -> bool {
    &&& post.wf()
    &&& post.bats@.len() == pre.bats@.len()
    &&& post.function == pre.function
    &&& post.bounds == pre.bounds
    &&& post.dimension == pre.dimension
    &&& post.initial_pulse_rate == pre.initial_pulse_rate
    &&& post.initial_loudness == pre.initial_loudness
    &&& exists|moved: Seq<Bat>|
        #![trigger moved.len()]
        {
            &&& moved.len() == post.bats@.len()
            &&& forall|i: int|
                0 <= i < moved.len() ==> bat_moved(
                    pre.bats@[i],
                    #[trigger] moved[i],
                    pre.best_solution@,
                    (average_loudness_spec(pre.bats@) as i64),
                ) && bat_rescored(
                    moved[i],
                    post.bats@[i],
                    post.function.spec_eval(moved[i].position@) as int,
                    iteration,
                )
        }
    &&& post.best_solution_value == min_int(
        pre.best_solution_value as int,
        evals_prefix_min(post.function, post.bats@, post.bats@.len() as int),
    )
    &&& (post.best_solution_value < pre.best_solution_value ==> exists|i: int|
        0 <= i < post.bats@.len() && (#[trigger] post.bats@[i]).position@ == post.best_solution@
            && post.function.spec_eval(post.best_solution@) == post.best_solution_value)
}

impl<F: Function> WorldState<F> {
    /// The population's invariant: ordered bounds, at least one agent,
    /// and every agent shaped to the population's dimension, domain and
    /// frequency interval.
    pub open spec fn wf(&self) -> bool {
        &&& self.bounds.0 < self.bounds.1
        &&& self.bats@.len() >= 1
        &&& self.best_solution@.len() == self.dimension
        &&& forall|i: int|
            0 <= i < self.bats@.len() ==> (#[trigger] self.bats@[i]).wf(self.dimension as int)
        &&& forall|i: int| 0 <= i < self.bats@.len() ==> (#[trigger] self.bats@[i]).bounds == self.bounds
        &&& forall|i: int|
            0 <= i < self.bats@.len() ==> (#[trigger] self.bats@[i]).frequency_bounds.0
                < self.bats@[i].frequency_bounds.1
    }

    /// The least fitness over all agents' current positions.
    pub open spec fn population_min(&self) -> int {
        evals_prefix_min(self.function, self.bats@, self.bats@.len() as int)
    }

    /// Build a population: validate the configuration, draw the agents,
    /// evaluate them all, and record the least fitness found as the
    /// best known solution.
    pub fn new(
        bat_count: usize,
        function: F,
        bounds: (i64, i64),
        frequency_bounds: (i64, i64),
        initial_pulse_rate: i64,
        pulse_rate_factor: i64,
        initial_loudness: i64,
        loudness_cool_factor: i64,
        random_generator: StdRng,
        dimension: usize,
    ) -> (r: Result<WorldState<F>, ConfigError>)
        requires
            bat_count >= 1,
        ensures
            bounds.0 >= bounds.1 ==> r == Err::<WorldState<F>, ConfigError>(
                ConfigError::InvalidDomainBounds,
            ),
            bounds.0 < bounds.1 && frequency_bounds.0 >= frequency_bounds.1 ==> r == Err::<
                WorldState<F>,
                ConfigError,
            >(ConfigError::InvalidFrequencyBounds),
            r is Ok <==> bounds.0 < bounds.1 && frequency_bounds.0 < frequency_bounds.1,
            r matches Ok(w) ==> {
                &&& w.wf()
                &&& w.bats@.len() == bat_count
                &&& w.function == function
                &&& w.bounds == bounds
                &&& w.dimension == dimension
                &&& w.initial_pulse_rate == initial_pulse_rate
                &&& w.initial_loudness == initial_loudness
                &&& w.best_solution_value == w.population_min()
                &&& forall|i: int|
                    0 <= i < w.bats@.len() ==> {
                        &&& seq_in_range((#[trigger] w.bats@[i]).position@, bounds.0, bounds.1)
                        &&& w.bats@[i].current_pulse_rate == initial_pulse_rate
                        &&& w.bats@[i].original_pulse_rate == initial_pulse_rate
                        &&& w.bats@[i].pulse_rate_factor == pulse_rate_factor
                        &&& w.bats@[i].loudness == initial_loudness
                        &&& w.bats@[i].loudness_cool_factor == loudness_cool_factor
                        &&& w.bats@[i].best_solution_value == i64::MAX
                    }
                &&& (w.best_solution_value < i64::MAX ==> exists|i: int|
                    0 <= i < w.bats@.len() && (#[trigger] w.bats@[i]).position@
                        == w.best_solution@ && w.function.spec_eval(w.best_solution@)
                        == w.best_solution_value)
            },
    {
        if bounds.0 >= bounds.1 {
            return Err(ConfigError::InvalidDomainBounds);
        }
        if frequency_bounds.0 >= frequency_bounds.1 {
            return Err(ConfigError::InvalidFrequencyBounds);
        }
        let mut random_generator = random_generator;
        let mut bats: Vec<Bat> = Vec::new();
        let mut k: usize = 0;
        while k < bat_count
            invariant
                k <= bat_count,
                bats@.len() == k,
                bounds.0 < bounds.1,
                frequency_bounds.0 < frequency_bounds.1,
                forall|i: int|
                    0 <= i < k ==> {
                        &&& (#[trigger] bats@[i]).wf(dimension as int)
                        &&& bats@[i].bounds == bounds
                        &&& bats@[i].frequency_bounds == frequency_bounds
                        &&& seq_in_range(bats@[i].position@, bounds.0, bounds.1)
                        &&& bats@[i].current_pulse_rate == initial_pulse_rate
                        &&& bats@[i].original_pulse_rate == initial_pulse_rate
                        &&& bats@[i].pulse_rate_factor == pulse_rate_factor
                        &&& bats@[i].loudness == initial_loudness
                        &&& bats@[i].loudness_cool_factor == loudness_cool_factor
                        &&& bats@[i].best_solution_value == i64::MAX
                    },
            decreases bat_count - k,
        {
            let bat = Bat::new(
                bounds.0,
                bounds.1,
                frequency_bounds.0,
                frequency_bounds.1,
                initial_pulse_rate,
                pulse_rate_factor,
                initial_loudness,
                loudness_cool_factor,
                &mut random_generator,
                dimension,
            );
            bats.push(bat);
            k += 1;
        }
        let mut best_solution = VectorN::zero(dimension);
        let mut best_solution_value: i64 = i64::MAX;
        let mut j: usize = 0;
        while j < bat_count
            invariant
                j <= bat_count,
                bats@.len() == bat_count,
                best_solution_value == evals_prefix_min(function, bats@, j as int),
                best_solution@.len() == dimension,
                forall|i: int| 0 <= i < bat_count ==> (#[trigger] bats@[i]).wf(dimension as int),
                best_solution_value < i64::MAX ==> exists|i: int|
                    0 <= i < bat_count && (#[trigger] bats@[i]).position@ == best_solution@
                        && function.spec_eval(best_solution@) == best_solution_value,
            decreases bat_count - j,
        {
            let bat_value = function.calculate(&bats[j].position);
            if bat_value < best_solution_value {
                best_solution = bats[j].position.duplicate();
                best_solution_value = bat_value;
            }
            j += 1;
        }
        Ok(
            WorldState {
                bats,
                function,
                best_solution,
                best_solution_value,
                bounds,
                random_generator,
                initial_pulse_rate,
                initial_loudness,
                dimension,
            },
        )
    }

    /// Start a fresh trial: reinitialize every agent from the
    /// originally configured parameters and recompute the best known
    /// solution from the fresh population.
    pub fn reset(&mut self)
        requires
            old(self).wf(),
        ensures
            final(self).wf(),
            final(self).bats@.len() == old(self).bats@.len(),
            final(self).function == old(self).function,
            final(self).bounds == old(self).bounds,
            final(self).dimension == old(self).dimension,
            final(self).initial_pulse_rate == old(self).initial_pulse_rate,
            final(self).initial_loudness == old(self).initial_loudness,
            forall|i: int|
                0 <= i < final(self).bats@.len() ==> {
                    &&& (#[trigger] final(self).bats@[i]).best_solution_value == i64::MAX
                    &&& final(self).bats@[i].current_pulse_rate == old(self).initial_pulse_rate
                    &&& final(self).bats@[i].original_pulse_rate == old(self).initial_pulse_rate
                    &&& final(self).bats@[i].loudness == old(self).initial_loudness
                    &&& seq_in_range(
                        final(self).bats@[i].position@,
                        old(self).bounds.0,
                        old(self).bounds.1,
                    )
                },
            final(self).best_solution_value == final(self).population_min(),
            final(self).best_solution_value < i64::MAX ==> exists|i: int|
                0 <= i < final(self).bats@.len() && (#[trigger] final(self).bats@[i]).position@
                    == final(self).best_solution@ && final(self).function.spec_eval(
                    final(self).best_solution@,
                ) == final(self).best_solution_value,
    {
        let bat_count = self.bats.len();
        let mut best_solution = VectorN::zero(self.dimension);
        let mut best_solution_value: i64 = i64::MAX;
        let ghost mut best_index: int = 0;
        let mut j: usize = 0;
        while j < bat_count
            invariant
                j <= bat_count,
                self.bats@.len() == bat_count,
                old(self).bats@.len() == bat_count,
                self.bounds == old(self).bounds,
                self.dimension == old(self).dimension,
                self.function == old(self).function,
                self.best_solution == old(self).best_solution,
                self.best_solution_value == old(self).best_solution_value,
                self.initial_pulse_rate == old(self).initial_pulse_rate,
                self.initial_loudness == old(self).initial_loudness,
                old(self).wf(),
                best_solution@.len() == self.dimension,
                best_solution_value == evals_prefix_min(self.function, self.bats@, j as int),
                forall|i: int|
                    0 <= i < bat_count ==> (#[trigger] self.bats@[i]).wf(self.dimension as int),
                forall|i: int| 0 <= i < bat_count ==> (#[trigger] self.bats@[i]).bounds == self.bounds,
                forall|i: int|
                    0 <= i < bat_count ==> (#[trigger] self.bats@[i]).frequency_bounds.0
                        < self.bats@[i].frequency_bounds.1,
                forall|i: int|
                    0 <= i < j ==> {
                        &&& (#[trigger] self.bats@[i]).best_solution_value == i64::MAX
                        &&& self.bats@[i].current_pulse_rate == old(self).initial_pulse_rate
                        &&& self.bats@[i].original_pulse_rate == old(self).initial_pulse_rate
                        &&& self.bats@[i].loudness == old(self).initial_loudness
                        &&& seq_in_range(
                            self.bats@[i].position@,
                            old(self).bounds.0,
                            old(self).bounds.1,
                        )
                    },
                best_solution_value < i64::MAX ==> 0 <= best_index < j
                    && self.bats@[best_index].position@ == best_solution@
                    && self.function.spec_eval(best_solution@) == best_solution_value,
            decreases bat_count - j,
        {
            let bounds = self.bounds;
            let initial_pulse_rate = self.initial_pulse_rate;
            let initial_loudness = self.initial_loudness;
            let ghost prev_bats = self.bats@;
            let bat = &mut self.bats[j];
            bat.reset(
                bounds.0,
                bounds.1,
                initial_pulse_rate,
                initial_loudness,
                &mut self.random_generator,
            );
            proof {
                lemma_evals_prefix_min_congruent(self.function, self.bats@, prev_bats, j as int);
            }
            let bat_value = self.function.calculate(&self.bats[j].position);
            if bat_value < best_solution_value {
                best_solution = self.bats[j].position.duplicate();
                best_solution_value = bat_value;
                proof {
                    best_index = j as int;
                }
            }
            j += 1;
        }
        self.best_solution = best_solution;
        self.best_solution_value = best_solution_value;
    }

    /// Move every agent, all of them against the best known position
    /// and mean loudness of the start of the generation.
    pub fn move_bats(&mut self)
        requires
            old(self).wf(),
        ensures
            final(self).wf(),
            final(self).bats@.len() == old(self).bats@.len(),
            final(self).function == old(self).function,
            final(self).bounds == old(self).bounds,
            final(self).dimension == old(self).dimension,
            final(self).initial_pulse_rate == old(self).initial_pulse_rate,
            final(self).initial_loudness == old(self).initial_loudness,
            final(self).best_solution == old(self).best_solution,
            final(self).best_solution_value == old(self).best_solution_value,
            forall|i: int|
                0 <= i < final(self).bats@.len() ==> bat_moved(
                    old(self).bats@[i],
                    #[trigger] final(self).bats@[i],
                    old(self).best_solution@,
                    (average_loudness_spec(old(self).bats@) as i64),
                ),
            forall|i: int|
                0 <= i < final(self).bats@.len() ==> {
                    &&& (#[trigger] final(self).bats@[i]).current_pulse_rate
                        == old(self).bats@[i].current_pulse_rate
                    &&& final(self).bats@[i].original_pulse_rate
                        == old(self).bats@[i].original_pulse_rate
                    &&& final(self).bats@[i].pulse_rate_factor
                        == old(self).bats@[i].pulse_rate_factor
                    &&& final(self).bats@[i].loudness == old(self).bats@[i].loudness
                    &&& final(self).bats@[i].loudness_cool_factor
                        == old(self).bats@[i].loudness_cool_factor
                    &&& final(self).bats@[i].best_solution_value
                        == old(self).bats@[i].best_solution_value
                    &&& seq_in_bounds(
                        final(self).bats@[i].position@,
                        old(self).bounds.0,
                        old(self).bounds.1,
                    )
                },
    {
        let bat_count = self.bats.len();
        let mut loudness_sum: i64 = 0;
        let mut k: usize = 0;
        while k < bat_count
            invariant
                k <= bat_count,
                self.bats@.len() == bat_count,
                loudness_sum == loudness_sum_prefix(self.bats@, k as int),
            decreases bat_count - k,
        {
            loudness_sum = crate::scalar::sat_add(loudness_sum, self.bats[k].loudness);
            k += 1;
        }
        let q: i128 = match (loudness_sum as i128).checked_div(bat_count as i128) {
            Some(v) => v,
            None => 0,
        };
        proof {
            assert(q == trunc_div(loudness_sum as int, bat_count as int));
            let magnitude = crate::scalar::abs_int(loudness_sum as int);
            vstd::arithmetic::div_mod::lemma_div_is_ordered_by_denominator(
                magnitude,
                1,
                bat_count as int,
            );
            vstd::arithmetic::div_mod::lemma_div_basics(magnitude);
            vstd::arithmetic::div_mod::lemma_div_pos_is_pos(magnitude, bat_count as int);
            assert(i64::MIN <= q <= i64::MAX);
        }
        let average_loudness: i64 = q as i64;
        proof {
            assert(average_loudness == average_loudness_spec(self.bats@));
        }
        let best_solution = self.best_solution.duplicate();
        let mut j: usize = 0;
        while j < bat_count
            invariant
                j <= bat_count,
                self.bats@.len() == bat_count,
                old(self).bats@.len() == bat_count,
                old(self).wf(),
                self.bounds == old(self).bounds,
                self.dimension == old(self).dimension,
                self.function == old(self).function,
                self.best_solution == old(self).best_solution,
                self.best_solution_value == old(self).best_solution_value,
                self.initial_pulse_rate == old(self).initial_pulse_rate,
                self.initial_loudness == old(self).initial_loudness,
                best_solution@.len() == self.dimension,
                forall|i: int| j <= i < bat_count ==> #[trigger] self.bats@[i] == old(self).bats@[i],
                average_loudness as int == average_loudness_spec(old(self).bats@),
                best_solution@ == old(self).best_solution@,
                forall|i: int|
                    0 <= i < j ==> bat_moved(
                        old(self).bats@[i],
                        #[trigger] self.bats@[i],
                        old(self).best_solution@,
                        average_loudness,
                    ),
                forall|i: int|
                    0 <= i < j ==> {
                        &&& (#[trigger] self.bats@[i]).wf(self.dimension as int)
                        &&& self.bats@[i].bounds == old(self).bats@[i].bounds
                        &&& self.bats@[i].frequency_bounds == old(self).bats@[i].frequency_bounds
                        &&& self.bats@[i].current_pulse_rate
                            == old(self).bats@[i].current_pulse_rate
                        &&& self.bats@[i].original_pulse_rate
                            == old(self).bats@[i].original_pulse_rate
                        &&& self.bats@[i].pulse_rate_factor == old(self).bats@[i].pulse_rate_factor
                        &&& self.bats@[i].loudness == old(self).bats@[i].loudness
                        &&& self.bats@[i].loudness_cool_factor
                            == old(self).bats@[i].loudness_cool_factor
                        &&& self.bats@[i].best_solution_value
                            == old(self).bats@[i].best_solution_value
                        &&& seq_in_bounds(
                            self.bats@[i].position@,
                            old(self).bounds.0,
                            old(self).bounds.1,
                        )
                    },
            decreases bat_count - j,
        {
            let bat = &mut self.bats[j];
            bat.move_bat(&best_solution, &mut self.random_generator, average_loudness);
            j += 1;
        }
    }

    /// Re-evaluate every agent after a move: fold the fitnesses into
    /// the best known solution, and adapt the parameters of every agent
    /// whose own best strictly improved.  The best known value cannot
    /// increase.
    pub fn update_best_known_solution(&mut self, iter_number: usize)
        requires
            old(self).wf(),
        ensures
            final(self).wf(),
            final(self).bats@.len() == old(self).bats@.len(),
            final(self).function == old(self).function,
            final(self).bounds == old(self).bounds,
            final(self).dimension == old(self).dimension,
            final(self).initial_pulse_rate == old(self).initial_pulse_rate,
            final(self).initial_loudness == old(self).initial_loudness,
            final(self).best_solution_value == min_int(
                old(self).best_solution_value as int,
                evals_prefix_min(old(self).function, old(self).bats@, old(self).bats@.len() as int),
            ),
            final(self).best_solution_value <= old(self).best_solution_value,
            final(self).best_solution_value < old(self).best_solution_value ==> exists|i: int|
                0 <= i < final(self).bats@.len() && (#[trigger] final(self).bats@[i]).position@
                    == final(self).best_solution@ && final(self).function.spec_eval(
                    final(self).best_solution@,
                ) == final(self).best_solution_value,
            final(self).best_solution_value == old(self).best_solution_value
                ==> final(self).best_solution == old(self).best_solution,
            forall|i: int|
                0 <= i < final(self).bats@.len() ==> {
                    let value = old(self).function.spec_eval(old(self).bats@[i].position@) as int;
                    &&& (#[trigger] final(self).bats@[i]).position == old(self).bats@[i].position
                    &&& final(self).bats@[i].velocity == old(self).bats@[i].velocity
                    &&& final(self).bats@[i].bounds == old(self).bats@[i].bounds
                    &&& final(self).bats@[i].frequency_bounds == old(self).bats@[i].frequency_bounds
                    &&& final(self).bats@[i].original_pulse_rate
                        == old(self).bats@[i].original_pulse_rate
                    &&& final(self).bats@[i].pulse_rate_factor
                        == old(self).bats@[i].pulse_rate_factor
                    &&& final(self).bats@[i].loudness_cool_factor
                        == old(self).bats@[i].loudness_cool_factor
                    &&& final(self).bats@[i].best_solution_value == min_int(
                        old(self).bats@[i].best_solution_value as int,
                        value,
                    )
                    &&& (value < old(self).bats@[i].best_solution_value
                        ==> final(self).bats@[i].loudness == mul_down(
                        old(self).bats@[i].loudness as int,
                        old(self).bats@[i].loudness_cool_factor as int,
                    ) && final(self).bats@[i].current_pulse_rate == pulse_schedule_spec(
                        old(self).bats@[i].original_pulse_rate as int,
                        old(self).bats@[i].pulse_rate_factor as int,
                        iter_number as int,
                    ))
                    &&& (value >= old(self).bats@[i].best_solution_value
                        ==> final(self).bats@[i].loudness == old(self).bats@[i].loudness
                        && final(self).bats@[i].current_pulse_rate
                        == old(self).bats@[i].current_pulse_rate)
                },
            forall|i: int|
                0 <= i < final(self).bats@.len()
                    ==> (#[trigger] final(self).bats@[i]).best_solution_value
                    <= final(self).function.spec_eval(final(self).bats@[i].position@),
    {
        let bat_count = self.bats.len();
        let ghost mut best_index: int = 0;
        let mut j: usize = 0;
        while j < bat_count
            invariant
                j <= bat_count,
                self.bats@.len() == bat_count,
                old(self).bats@.len() == bat_count,
                old(self).wf(),
                self.bounds == old(self).bounds,
                self.dimension == old(self).dimension,
                self.function == old(self).function,
                self.initial_pulse_rate == old(self).initial_pulse_rate,
                self.initial_loudness == old(self).initial_loudness,
                self.best_solution@.len() == self.dimension,
                self.best_solution_value == min_int(
                    old(self).best_solution_value as int,
                    evals_prefix_min(old(self).function, old(self).bats@, j as int),
                ),
                self.best_solution_value <= old(self).best_solution_value,
                self.best_solution_value < old(self).best_solution_value ==> 0 <= best_index < j
                    && self.bats@[best_index].position@ == self.best_solution@
                    && self.function.spec_eval(self.best_solution@) == self.best_solution_value,
                self.best_solution_value == old(self).best_solution_value ==> self.best_solution
                    == old(self).best_solution,
                forall|i: int| j <= i < bat_count ==> #[trigger] self.bats@[i] == old(self).bats@[i],
                forall|i: int|
                    0 <= i < j ==> {
                        let value = old(self).function.spec_eval(
                            old(self).bats@[i].position@,
                        ) as int;
                        &&& (#[trigger] self.bats@[i]).position == old(self).bats@[i].position
                        &&& self.bats@[i].velocity == old(self).bats@[i].velocity
                        &&& self.bats@[i].bounds == old(self).bats@[i].bounds
                        &&& self.bats@[i].frequency_bounds == old(self).bats@[i].frequency_bounds
                        &&& self.bats@[i].original_pulse_rate
                            == old(self).bats@[i].original_pulse_rate
                        &&& self.bats@[i].pulse_rate_factor == old(self).bats@[i].pulse_rate_factor
                        &&& self.bats@[i].loudness_cool_factor
                            == old(self).bats@[i].loudness_cool_factor
                        &&& self.bats@[i].best_solution_value == min_int(
                            old(self).bats@[i].best_solution_value as int,
                            value,
                        )
                        &&& (value < old(self).bats@[i].best_solution_value ==> self.bats@[i].loudness
                            == mul_down(
                            old(self).bats@[i].loudness as int,
                            old(self).bats@[i].loudness_cool_factor as int,
                        ) && self.bats@[i].current_pulse_rate == pulse_schedule_spec(
                            old(self).bats@[i].original_pulse_rate as int,
                            old(self).bats@[i].pulse_rate_factor as int,
                            iter_number as int,
                        ))
                        &&& (value >= old(self).bats@[i].best_solution_value ==> self.bats@[i].loudness
                            == old(self).bats@[i].loudness && self.bats@[i].current_pulse_rate
                            == old(self).bats@[i].current_pulse_rate)
                    },
            decreases bat_count - j,
        {
            let bat_value = self.function.calculate(&self.bats[j].position);
            if bat_value < self.best_solution_value {
                self.best_solution_value = bat_value;
                self.best_solution = self.bats[j].position.duplicate();
                proof {
                    best_index = j as int;
                }
            }
            let own_best = self.bats[j].best_solution_value;
            if bat_value < own_best {
                let bat = &mut self.bats[j];
                bat.best_solution_value = bat_value;
                bat.update_parameters(iter_number);
            }
            j += 1;
        }
    }

    /// One generation: move every agent, then fold the new fitnesses
    /// into the population's bookkeeping.  Every agent of the final
    /// state is a move-step outcome of its old state rescored by its
    /// fresh fitness; the best known value is the minimum of its old
    /// value and those fitnesses, and never increases.
    pub fn do_iteration(&mut self, iter_number: usize)
        requires
            old(self).wf(),
        ensures
            final(self).wf(),
            final(self).bats@.len() == old(self).bats@.len(),
            final(self).function == old(self).function,
            final(self).bounds == old(self).bounds,
            final(self).dimension == old(self).dimension,
            final(self).initial_pulse_rate == old(self).initial_pulse_rate,
            final(self).initial_loudness == old(self).initial_loudness,
            exists|moved: Seq<Bat>|
                #![trigger moved.len()]
                {
                    &&& moved.len() == final(self).bats@.len()
                    &&& forall|i: int|
                        0 <= i < moved.len() ==> bat_moved(
                            old(self).bats@[i],
                            #[trigger] moved[i],
                            old(self).best_solution@,
                            (average_loudness_spec(old(self).bats@) as i64),
                        ) && bat_rescored(
                            moved[i],
                            final(self).bats@[i],
                            final(self).function.spec_eval(moved[i].position@) as int,
                            iter_number as int,
                        )
                },
            final(self).best_solution_value == min_int(
                old(self).best_solution_value as int,
                evals_prefix_min(
                    final(self).function,
                    final(self).bats@,
                    final(self).bats@.len() as int,
                ),
            ),
            final(self).best_solution_value <= old(self).best_solution_value,
            final(self).best_solution_value < old(self).best_solution_value ==> exists|i: int|
                0 <= i < final(self).bats@.len() && (#[trigger] final(self).bats@[i]).position@
                    == final(self).best_solution@ && final(self).function.spec_eval(
                    final(self).best_solution@,
                ) == final(self).best_solution_value,
            forall|i: int|
                0 <= i < final(self).bats@.len() ==> seq_in_bounds(
                    (#[trigger] final(self).bats@[i]).position@,
                    old(self).bounds.0,
                    old(self).bounds.1,
                ),
            forall|bound: int|
                #[trigger] eval_bounded_below(final(self).function, bound) && old(self).best_solution_value >= bound ==> final(self).best_solution_value >= bound,
            forall|i: int|
                0 <= i < final(self).bats@.len()
                    ==> (#[trigger] final(self).bats@[i]).best_solution_value
                    <= final(self).function.spec_eval(final(self).bats@[i].position@),
            generation_rel(*old(self), *final(self), iter_number as int),
    {
        self.move_bats();
        let ghost mid_bats = self.bats@;
        self.update_best_known_solution(iter_number);
        proof {
            lemma_evals_prefix_min_congruent(
                self.function,
                self.bats@,
                mid_bats,
                self.bats@.len() as int,
            );
            assert(mid_bats.len() == self.bats@.len());
            assert forall|i: int| 0 <= i < mid_bats.len() implies bat_moved(
                old(self).bats@[i],
                #[trigger] mid_bats[i],
                old(self).best_solution@,
                (average_loudness_spec(old(self).bats@) as i64),
            ) && bat_rescored(
                mid_bats[i],
                self.bats@[i],
                self.function.spec_eval(mid_bats[i].position@) as int,
                iter_number as int,
            ) by {}
            assert forall|bound: int|
                #[trigger] eval_bounded_below(self.function, bound) && old(self).best_solution_value >= bound implies self.best_solution_value >= bound by {
                lemma_evals_prefix_min_bounded(
                    self.function,
                    self.bats@,
                    self.bats@.len() as int,
                    bound,
                );
            }
            assert(generation_rel(*old(self), *self, iter_number as int));
        }
    }

    /// Run the whole fixed budget of generations, in order.  The best
    /// known value never increases.
    pub fn do_all_iterations(&mut self, iterations: usize)
        requires
            old(self).wf(),
        ensures
            final(self).wf(),
            final(self).bats@.len() == old(self).bats@.len(),
            final(self).function == old(self).function,
            final(self).bounds == old(self).bounds,
            final(self).dimension == old(self).dimension,
            final(self).initial_pulse_rate == old(self).initial_pulse_rate,
            final(self).initial_loudness == old(self).initial_loudness,
            final(self).best_solution_value <= old(self).best_solution_value,
            iterations == 0 ==> *final(self) == *old(self),
            iterations >= 1 ==> forall|i: int|
                0 <= i < final(self).bats@.len() ==> seq_in_bounds(
                    (#[trigger] final(self).bats@[i]).position@,
                    old(self).bounds.0,
                    old(self).bounds.1,
                ),
            forall|bound: int|
                #[trigger] eval_bounded_below(final(self).function, bound) && old(self).best_solution_value >= bound ==> final(self).best_solution_value >= bound,
            iterations >= 1 ==> forall|i: int|
                0 <= i < final(self).bats@.len()
                    ==> (#[trigger] final(self).bats@[i]).best_solution_value
                    <= final(self).function.spec_eval(final(self).bats@[i].position@),
            exists|trace: Seq<WorldState<F>>|
                #![trigger trace.len()]
                {
                    &&& trace.len() == iterations + 1
                    &&& trace[0] == *old(self)
                    &&& trace[iterations as int] == *final(self)
                    &&& forall|k: int|
                        0 <= k < iterations ==> generation_rel(
                            #[trigger] trace[k],
                            trace[k + 1],
                            k,
                        )
                },
    {
        let ghost mut trace: Seq<WorldState<F>> = seq![*old(self)];
        let mut iter: usize = 0;
        while iter < iterations
            invariant
                iter <= iterations,
                trace.len() == iter + 1,
                trace[0] == *old(self),
                trace[iter as int] == *self,
                forall|k: int|
                    0 <= k < iter ==> generation_rel(#[trigger] trace[k], trace[k + 1], k),
                self.wf(),
                self.bats@.len() == old(self).bats@.len(),
                self.function == old(self).function,
                self.bounds == old(self).bounds,
                self.dimension == old(self).dimension,
                self.initial_pulse_rate == old(self).initial_pulse_rate,
                self.initial_loudness == old(self).initial_loudness,
                self.best_solution_value <= old(self).best_solution_value,
                iter == 0 ==> *self == *old(self),
                iter >= 1 ==> forall|i: int|
                    0 <= i < self.bats@.len() ==> seq_in_bounds(
                        (#[trigger] self.bats@[i]).position@,
                        old(self).bounds.0,
                        old(self).bounds.1,
                    ),
                forall|bound: int|
                    #[trigger] eval_bounded_below(self.function, bound) && old(self).best_solution_value >= bound ==> self.best_solution_value >= bound,
                iter >= 1 ==> forall|i: int|
                    0 <= i < self.bats@.len()
                        ==> (#[trigger] self.bats@[i]).best_solution_value
                        <= self.function.spec_eval(self.bats@[i].position@),
            decreases iterations - iter,
        {
            self.do_iteration(iter);
            proof {
                trace = trace.push(*self);
            }
            iter += 1;
        }
    }
}

} // verus!
