//! Benchmark objective functions and their registry.
//!
//! An objective is a pure map from a vector to a scaled fitness value,
//! together with the interval its inputs are meant to lie in; lower
//! fitness is better.  The populations take any implementation of
//! [`Function`]; the registry names the implementations this crate
//! carries and is looked up by name before a population is built.

use vstd::prelude::*;
use vstd::string::StrSliceExecFns;

use crate::scalar::{mul_down, mul_scaled, sat64, sat_add, sat_sub, SCALE};
use crate::vector::VectorN;

verus! {

/// A configuration fault found before any agent or lane exists.
#[derive(Clone, Copy, Debug, PartialEq, Eq, Structural)]
pub enum ConfigError {
    /// The domain interval is empty or reversed: `lower >= upper`.
    InvalidDomainBounds,
    /// The frequency interval is empty or reversed.
    InvalidFrequencyBounds,
    /// The fragrance-exponent interval is empty or reversed.
    InvalidFragranceExponentBounds,
    /// The asked-for objective name is not in the registry.
    UnknownFunction,
}

/// An objective function over fixed-dimension vectors, with the domain
/// interval its inputs are drawn from.
pub trait Function {
    /// The fitness of a position, as a scaled scalar.  An
    /// implementation that keeps this default leaves the value
    /// unspecified: nothing is then known of its objective's results.
    open spec fn spec_eval(&self, v: Seq<i64>) -> i64 {
        vstd::pervasive::arbitrary()
    }

    /// The declared valid input interval, componentwise.
    open spec fn spec_bounds(&self) -> (i64, i64) {
        vstd::pervasive::arbitrary()
    }

    /// Evaluate the objective at `input`.
    fn calculate(&self, input: &VectorN) -> (r: i64)
        ensures
            r == self.spec_eval(input@),
    ;

    /// The declared valid input interval, componentwise.
    fn get_bounds(&self) -> (r: (i64, i64))
        ensures
            r == self.spec_bounds(),
    ;
}

/// Every position's fitness under `f` stays at or above `bound`.
pub open spec fn eval_bounded_below<F: Function>(f: F, bound: int) -> bool {
    forall|v: Seq<i64>| #[trigger] f.spec_eval(v) >= bound
}

/// The sphere objective is bounded below by zero, its true minimum.
pub proof fn lemma_sphere_bounded_below()
    ensures
        eval_bounded_below(Functions::Sphere, 0),
{
    assert forall|v: Seq<i64>| #[trigger] Functions::Sphere.spec_eval(v) >= 0 by {
        lemma_squares_prefix_nonneg(v, v.len() as int);
    }
}

/// Saturating sum of the squares of the first `k` components.
pub open spec fn squares_prefix(v: Seq<i64>, k: int) -> int
    decreases k,
{
    if k <= 0 {
        0
    } else {
        sat64(squares_prefix(v, k - 1) + mul_down(v[k - 1] as int, v[k - 1] as int))
    }
}

/// Absolute value of a scaled scalar, saturated at the `i64` range.
pub open spec fn abs_sat(x: int) -> int {
    if x < 0 {
        sat64(-x)
    } else {
        x
    }
}

/// Saturating product of the absolute values of the first `k`
/// components, starting at one.
pub open spec fn abs_product_prefix(v: Seq<i64>, k: int) -> int
    decreases k,
{
    if k <= 0 {
        SCALE as int
    } else {
        mul_down(abs_product_prefix(v, k - 1), abs_sat(v[k - 1] as int))
    }
}

/// A square, rescaled, is never negative.
pub proof fn lemma_square_nonneg(x: int)
    requires
        i64::MIN <= x <= i64::MAX,
    ensures
        0 <= mul_down(x, x) <= i64::MAX,
{
    assert(x * x >= 0) by (nonlinear_arith);
}

/// The sphere objective never goes below zero, its true minimum.
pub proof fn lemma_squares_prefix_nonneg(v: Seq<i64>, k: int)
    ensures
        0 <= squares_prefix(v, k) <= i64::MAX,
    decreases k,
{
    if k > 0 {
        lemma_squares_prefix_nonneg(v, k - 1);
        lemma_square_nonneg(v[k - 1] as int);
    }
}

/// The registry's objectives: those whose formulas close over the
/// scaled arithmetic of this crate.
#[derive(Clone, Copy, Debug, PartialEq, Eq, Structural)]
pub enum Functions {
    /// Sum of squared components; minimum 0 at the origin.
    Sphere,
    /// Sum of squared components plus the product of the components'
    /// absolute values; minimum 0 at the origin.
    Schwefel,
}

impl Function for Functions {
    open spec fn spec_eval(&self, v: Seq<i64>) -> i64 {
        match self {
            Functions::Sphere => (squares_prefix(v, v.len() as int) as i64),
            Functions::Schwefel => (sat64(
                squares_prefix(v, v.len() as int) + abs_product_prefix(v, v.len() as int),
            ) as i64),
        }
    }

    open spec fn spec_bounds(&self) -> (i64, i64) {
        match self {
            Functions::Sphere => ((-5 * SCALE) as i64, (5 * SCALE) as i64),
            Functions::Schwefel => ((-10 * SCALE) as i64, (10 * SCALE) as i64),
        }
    }

    fn calculate(&self, input: &VectorN) -> (r: i64) {
        let n = input.coordinates.len();
        let mut squares: i64 = 0;
        let mut k: usize = 0;
        while k < n
            invariant
                k <= n,
                n == input@.len(),
                squares == squares_prefix(input@, k as int),
            decreases n - k,
        {
            let c = input.coordinates[k];
            squares = sat_add(squares, mul_scaled(c, c));
            k += 1;
        }
        match self {
            Functions::Sphere => squares,
            Functions::Schwefel => {
                let mut product: i64 = SCALE;
                let mut j: usize = 0;
                while j < n
                    invariant
                        j <= n,
                        n == input@.len(),
                        product == abs_product_prefix(input@, j as int),
                    decreases n - j,
                {
                    let c = input.coordinates[j];
                    let a = if c < 0 {
                        sat_sub(0, c)
                    } else {
                        c
                    };
                    product = mul_scaled(product, a);
                    j += 1;
                }
                sat_add(squares, product)
            },
        }
    }

    fn get_bounds(&self) -> (r: (i64, i64)) {
        match self {
            Functions::Sphere => (-5 * SCALE, 5 * SCALE),
            Functions::Schwefel => (-10 * SCALE, 10 * SCALE),
        }
    }
}

/// Character-by-character equality of two string slices.
fn str_eq(a: &str, b: &str) -> (r: bool)
    ensures
        r <==> a@ == b@,
{
    let la = a.unicode_len();
    let lb = b.unicode_len();
    if la != lb {
        return false;
    }
    let mut i: usize = 0;
    while i < la
        invariant
            i <= la,
            la == a@.len(),
            la == b@.len(),
            forall|j: int| 0 <= j < i ==> a@[j] == b@[j],
        decreases la - i,
    {
        if a.get_char(i) != b.get_char(i) {
            return false;
        }
        i += 1;
    }
    proof {
        assert(a@ =~= b@);
    }
    true
}

impl Functions {
    /// Look a registered objective up by name; an unknown name is the
    /// `NotFound` configuration error, raised before any population is
    /// built.
    pub fn make_from_name(name: &str) -> (r: Result<Functions, ConfigError>)
        ensures
            name@ == "sphere"@ ==> r == Ok::<Functions, ConfigError>(Functions::Sphere),
            name@ == "schwefel"@ ==> r == Ok::<Functions, ConfigError>(Functions::Schwefel),
            name@ != "sphere"@ && name@ != "schwefel"@ ==> r == Err::<Functions, ConfigError>(
                ConfigError::UnknownFunction,
            ),
    {
        proof {
            reveal_strlit("sphere");
            reveal_strlit("schwefel");
            assert("sphere"@.len() != "schwefel"@.len());
        }
        if str_eq(name, "sphere") {
            Ok(Functions::Sphere)
        } else if str_eq(name, "schwefel") {
            Ok(Functions::Schwefel)
        } else {
            Err(ConfigError::UnknownFunction)
        }
    }
}

/// Every objective the registry holds.
pub fn create_function_list() -> (r: Vec<Functions>)
    ensures
        r@ == seq![Functions::Sphere, Functions::Schwefel],
{
    let mut list: Vec<Functions> = Vec::new();
    list.push(Functions::Sphere);
    list.push(Functions::Schwefel);
    proof {
        assert(list@ =~= seq![Functions::Sphere, Functions::Schwefel]);
    }
    list
}

} // verus!
