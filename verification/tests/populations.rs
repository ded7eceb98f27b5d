use swarm_optimizers::bats;
use swarm_optimizers::butterflies;
use swarm_optimizers::functions::{ConfigError, Function, Functions};
use swarm_optimizers::harness;
use swarm_optimizers::rng::rng_from_seed;
use swarm_optimizers::SCALE;

fn bat_world(seed: u64, count: usize) -> bats::WorldState<Functions> {
    bats::WorldState::new(
        count,
        Functions::Sphere,
        (-5 * SCALE, 5 * SCALE),
        (0, SCALE),
        SCALE / 2,
        SCALE / 10,
        SCALE / 2,
        9 * SCALE / 10,
        rng_from_seed(seed),
        2,
    )
    .unwrap()
}

fn butterfly_world(seed: u64, count: usize) -> butterflies::WorldState<Functions> {
    butterflies::WorldState::new(
        count,
        Functions::Sphere,
        (-5 * SCALE, 5 * SCALE),
        SCALE / 20,
        (SCALE / 10, 3 * SCALE / 10),
        SCALE / 5,
        rng_from_seed(seed),
        2,
    )
    .unwrap()
}

// Degenerate bound interval must fail before any agent exists.
#[test]
fn degenerate_bounds_are_a_configuration_error() {
    let r = bats::WorldState::new(
        30,
        Functions::Sphere,
        (5 * SCALE, 5 * SCALE),
        (0, SCALE),
        SCALE / 2,
        SCALE / 10,
        SCALE / 2,
        9 * SCALE / 10,
        rng_from_seed(1),
        2,
    );
    assert!(matches!(r, Err(ConfigError::InvalidDomainBounds)));
    let b = butterflies::WorldState::new(
        30,
        Functions::Sphere,
        (5 * SCALE, 5 * SCALE),
        SCALE / 20,
        (SCALE / 10, 3 * SCALE / 10),
        SCALE / 5,
        rng_from_seed(1),
        2,
    );
    assert!(matches!(b, Err(ConfigError::InvalidDomainBounds)));
}

#[test]
fn reversed_secondary_bounds_are_configuration_errors() {
    let r = bats::WorldState::new(
        10,
        Functions::Sphere,
        (-5 * SCALE, 5 * SCALE),
        (SCALE, SCALE),
        SCALE / 2,
        SCALE / 10,
        SCALE / 2,
        9 * SCALE / 10,
        rng_from_seed(1),
        2,
    );
    assert!(matches!(r, Err(ConfigError::InvalidFrequencyBounds)));
    let b = butterflies::WorldState::new(
        10,
        Functions::Sphere,
        (-5 * SCALE, 5 * SCALE),
        SCALE / 20,
        (3 * SCALE / 10, SCALE / 10),
        SCALE / 5,
        rng_from_seed(1),
        2,
    );
    assert!(matches!(b, Err(ConfigError::InvalidFragranceExponentBounds)));
}

// After a reset every bat is back at the configured pulse rate and
// loudness with no fitness seen.
#[test]
fn reset_restores_initial_bat_parameters() {
    let mut world = bat_world(11, 12);
    world.do_all_iterations(20);
    world.reset();
    for bat in &world.bats {
        assert_eq!(bat.best_solution_value, i64::MAX);
        assert_eq!(bat.current_pulse_rate, SCALE / 2);
        assert_eq!(bat.original_pulse_rate, SCALE / 2);
        assert_eq!(bat.loudness, SCALE / 2);
    }
}

// The best known value never increases between generations, for both
// population variants.
#[test]
fn bat_best_value_is_non_increasing() {
    let mut world = bat_world(7, 15);
    let mut previous = world.best_solution_value;
    for iter in 0..50 {
        world.do_iteration(iter);
        assert!(world.best_solution_value <= previous);
        previous = world.best_solution_value;
    }
}

#[test]
fn butterfly_best_value_is_non_increasing() {
    let mut world = butterfly_world(7, 15);
    let mut previous = world.best_solution_value;
    for iter in 0..50 {
        world.do_iteration(iter, 50);
        assert!(world.best_solution_value <= previous);
        previous = world.best_solution_value;
    }
}

// Fragrance is defined even for a fitness of exactly zero.
#[test]
fn fragrance_never_divides_by_zero() {
    assert_eq!(butterflies::fragrance_of(0, 0), 0);
    assert_eq!(butterflies::fragrance_of(SCALE, SCALE), SCALE - 1);
    assert_eq!(butterflies::fragrance_of(5, -1), i64::MAX);
    assert_eq!(butterflies::fragrance_of(-5, -1), i64::MIN);
}

// Dimension 2, sphere objective, bounds (-5, 5), 30 bats, 500
// iterations, fixed seed: progress beyond the first generation, and
// never below the objective's true minimum.
#[test]
fn sphere_run_makes_progress() {
    let mut world = bat_world(42, 30);
    world.do_iteration(0);
    let after_first = world.best_solution_value;
    for iter in 1..500 {
        world.do_iteration(iter);
    }
    assert!(world.best_solution_value < after_first);
    assert!(world.best_solution_value >= 0);
}

// Ten trials over four lanes run at least ten trials, and the merged
// count is exactly the sum of the lanes' executed counts.
#[test]
fn batch_covers_requested_trials() {
    let mut lanes: Vec<bats::WorldState<Functions>> = (0..4u64)
        .map(|lane| bat_world(100 + lane, 8))
        .collect();
    let merged = harness::run_batch_bats(&mut lanes, 10, 25);
    assert!(merged.run_count >= 10);
    assert_eq!(merged.run_count, 4 * 3);
    assert!(merged.min_result <= merged.max_result);
    assert!(merged.min_result >= 0);
}

#[test]
fn butterfly_batch_covers_requested_trials() {
    let mut lanes: Vec<butterflies::WorldState<Functions>> = (0..3u64)
        .map(|lane| butterfly_world(200 + lane, 8))
        .collect();
    let merged = harness::run_batch_butterflies(&mut lanes, 7, 25);
    assert!(merged.run_count >= 7);
    assert_eq!(merged.run_count, 3 * 3);
}

// One seed, one stream: identical configurations with the same seed
// give identical runs, and the stream really moves the agents.
#[test]
fn seeded_runs_are_reproducible() {
    let mut a = bat_world(5, 10);
    let mut b = bat_world(5, 10);
    a.do_all_iterations(30);
    b.do_all_iterations(30);
    assert_eq!(a.best_solution_value, b.best_solution_value);
    assert_eq!(a.best_solution.coordinates, b.best_solution.coordinates);
    let c = bat_world(6, 10);
    let d = bat_world(5, 10);
    assert_ne!(
        c.bats[0].position.coordinates,
        d.bats[0].position.coordinates
    );
}

#[test]
fn initial_best_is_least_initial_fitness() {
    let world = bat_world(9, 10);
    let mut least = i64::MAX;
    for bat in &world.bats {
        let value = Functions::Sphere.calculate(&bat.position);
        if value < least {
            least = value;
        }
    }
    assert_eq!(world.best_solution_value, least);
}
