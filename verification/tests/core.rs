use swarm_optimizers::batch::BatchRunData;
use swarm_optimizers::functions::{ConfigError, Function, Functions};
use swarm_optimizers::scalar;
use swarm_optimizers::vector::VectorN;
use swarm_optimizers::SCALE;

#[test]
fn scaled_multiplication_rescales() {
    assert_eq!(scalar::mul_scaled(SCALE, SCALE), SCALE);
    assert_eq!(scalar::mul_scaled(2 * SCALE, 3 * SCALE), 6 * SCALE);
    assert_eq!(scalar::mul_scaled(-2 * SCALE, 3 * SCALE), -6 * SCALE);
    assert_eq!(scalar::mul_scaled(SCALE / 2, SCALE / 2), SCALE / 4);
}

#[test]
fn scaled_arithmetic_saturates() {
    assert_eq!(scalar::sat_add(i64::MAX, 1), i64::MAX);
    assert_eq!(scalar::sat_sub(i64::MIN, 1), i64::MIN);
    assert_eq!(scalar::mul_scaled(i64::MAX, 2 * SCALE), i64::MAX);
}

#[test]
fn division_is_total() {
    assert_eq!(scalar::div_scaled(3 * SCALE, 2 * SCALE), SCALE + SCALE / 2);
    assert_eq!(scalar::div_scaled(5, 0), i64::MAX);
    assert_eq!(scalar::div_scaled(-5, 0), i64::MIN);
    assert_eq!(scalar::div_scaled(0, 0), 0);
}

#[test]
fn square_roots_of_scaled_values() {
    assert_eq!(scalar::sqrt_scaled(0), 0);
    assert_eq!(scalar::sqrt_scaled(SCALE), SCALE);
    assert_eq!(scalar::sqrt_scaled(SCALE / 4), SCALE / 2);
}

#[test]
fn fractional_powers_stay_in_unit_interval() {
    assert_eq!(scalar::pow_frac(SCALE / 4, SCALE / 2), SCALE / 2);
    assert_eq!(scalar::pow_frac(SCALE, 3 * SCALE), SCALE);
    assert_eq!(scalar::pow_frac(SCALE / 2, 0), SCALE);
    let tiny = scalar::pow_frac(SCALE / 2, 2 * SCALE);
    assert!(0 <= tiny && tiny <= SCALE);
}

// Clamping a vector already inside the bounds leaves it unchanged.
#[test]
fn clamp_is_a_no_op_within_bounds() {
    let mut v = VectorN::new(vec![-2 * SCALE, 0, 3 * SCALE]);
    v.clamp((-5 * SCALE, 5 * SCALE));
    assert_eq!(v.coordinates, vec![-2 * SCALE, 0, 3 * SCALE]);
}

#[test]
fn clamp_forces_components_into_bounds() {
    let mut v = VectorN::new(vec![-7 * SCALE, 0, 9 * SCALE]);
    v.clamp((-5 * SCALE, 5 * SCALE));
    assert_eq!(v.coordinates, vec![-5 * SCALE, 0, 5 * SCALE]);
}

// The default vector of a declared dimension is all-zero.
#[test]
fn zero_vector_is_all_zero() {
    let v = VectorN::zero(4);
    assert_eq!(v.coordinates, vec![0, 0, 0, 0]);
}

#[test]
fn vector_arithmetic_is_elementwise() {
    let mut a = VectorN::new(vec![SCALE, 2 * SCALE]);
    let b = VectorN::new(vec![3 * SCALE, -SCALE]);
    a.add_assign_vec(&b);
    assert_eq!(a.coordinates, vec![4 * SCALE, SCALE]);
    let d = a.sub_vec(&b);
    assert_eq!(d.coordinates, vec![SCALE, 2 * SCALE]);
    let s = d.scale(SCALE / 2);
    assert_eq!(s.coordinates, vec![SCALE / 2, SCALE]);
    let mut t = s;
    t.add_scalar_assign(SCALE);
    assert_eq!(t.coordinates, vec![SCALE + SCALE / 2, 2 * SCALE]);
}

// Folding a single observation into an empty accumulator yields that
// observation as min, max and mean, with count one.
#[test]
fn single_observation_fills_empty_accumulator() {
    let mut stats = BatchRunData::new();
    stats.record(7 * SCALE);
    assert_eq!(stats.min_result, 7 * SCALE);
    assert_eq!(stats.max_result, 7 * SCALE);
    assert_eq!(stats.run_count, 1);
    assert_eq!(stats.average(), 7 * SCALE);
}

#[test]
fn accumulator_tracks_min_max_mean() {
    let mut stats = BatchRunData::new();
    stats.record(2 * SCALE);
    stats.record(4 * SCALE);
    assert_eq!(stats.min_result, 2 * SCALE);
    assert_eq!(stats.max_result, 4 * SCALE);
    assert_eq!(stats.run_count, 2);
    assert_eq!(stats.average(), 3 * SCALE);
}

fn stats_from(values: &[i64]) -> BatchRunData {
    let mut stats = BatchRunData::new();
    for &value in values {
        stats.record(value);
    }
    stats
}

// Merging accumulators is commutative.
#[test]
fn merge_is_commutative() {
    let a = stats_from(&[SCALE, 5 * SCALE]);
    let b = stats_from(&[-3 * SCALE]);
    let mut ab = stats_from(&[SCALE, 5 * SCALE]);
    ab.merge_with(&b);
    let mut ba = stats_from(&[-3 * SCALE]);
    ba.merge_with(&a);
    assert_eq!(ab.min_result, ba.min_result);
    assert_eq!(ab.max_result, ba.max_result);
    assert_eq!(ab.total, ba.total);
    assert_eq!(ab.run_count, ba.run_count);
}

// Merging accumulators is associative.
#[test]
fn merge_is_associative() {
    let b = stats_from(&[-3 * SCALE]);
    let c = stats_from(&[2 * SCALE, 2 * SCALE]);
    let mut left = stats_from(&[SCALE, 5 * SCALE]);
    left.merge_with(&b);
    left.merge_with(&c);
    let mut bc = stats_from(&[-3 * SCALE]);
    bc.merge_with(&c);
    let mut right = stats_from(&[SCALE, 5 * SCALE]);
    right.merge_with(&bc);
    assert_eq!(left.min_result, right.min_result);
    assert_eq!(left.max_result, right.max_result);
    assert_eq!(left.total, right.total);
    assert_eq!(left.run_count, right.run_count);
}

#[test]
fn empty_accumulator_is_merge_identity() {
    let mut a = stats_from(&[4 * SCALE, -SCALE]);
    let empty = BatchRunData::new();
    a.merge_with(&empty);
    assert_eq!(a.min_result, -SCALE);
    assert_eq!(a.max_result, 4 * SCALE);
    assert_eq!(a.run_count, 2);
}

#[test]
fn lanes_cover_requested_trials() {
    assert_eq!(swarm_optimizers::batch::tries_per_lane(10, 4), 3);
    assert_eq!(swarm_optimizers::batch::tries_per_lane(8, 4), 2);
    assert_eq!(swarm_optimizers::batch::tries_per_lane(1, 4), 1);
    assert_eq!(swarm_optimizers::batch::tries_per_lane(0, 4), 0);
}

#[test]
fn sphere_evaluates_sum_of_squares() {
    let v = VectorN::new(vec![SCALE, 2 * SCALE]);
    assert_eq!(Functions::Sphere.calculate(&v), 5 * SCALE);
    assert_eq!(Functions::Sphere.calculate(&VectorN::zero(3)), 0);
}

#[test]
fn schwefel_adds_product_of_absolutes() {
    let v = VectorN::new(vec![SCALE, -2 * SCALE]);
    assert_eq!(Functions::Schwefel.calculate(&v), 7 * SCALE);
}

#[test]
fn registry_lookup_by_name() {
    assert_eq!(Functions::make_from_name("sphere"), Ok(Functions::Sphere));
    assert_eq!(Functions::make_from_name("schwefel"), Ok(Functions::Schwefel));
    assert_eq!(
        Functions::make_from_name("rosenbrock"),
        Err(ConfigError::UnknownFunction)
    );
    assert_eq!(swarm_optimizers::functions::create_function_list().len(), 2);
}
