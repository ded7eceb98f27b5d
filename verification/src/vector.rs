//! Fixed-dimension vectors of scaled scalars.
//!
//! A `VectorN` is an ordered tuple of components, all arithmetic
//! elementwise and saturating.  The dimension is fixed when a vector is
//! made; the populations only ever combine vectors of one dimension,
//! which the contracts state as equal lengths.

use vstd::prelude::*;

use crate::scalar::{clamp_int, clamp_i64, mul_down, mul_scaled, sat64, sat_add, sat_sub};

verus! {

/// Fixed-dimension vector; `coordinates[i]` is the `i`-th component,
/// scaled by [`crate::scalar::SCALE`].
pub struct VectorN {
    pub coordinates: Vec<i64>,
}

impl View for VectorN {
    type V = Seq<i64>;

    open spec fn view(&self) -> Seq<i64> {
        self.coordinates@
    }
}

/// Elementwise saturating sum of two equally long component sequences.
pub open spec fn seq_sat_add(a: Seq<i64>, b: Seq<i64>) -> Seq<i64> {
    Seq::new(a.len(), |i: int| (sat64(a[i] + b[i]) as i64))
}

/// Elementwise saturating difference.
pub open spec fn seq_sat_sub(a: Seq<i64>, b: Seq<i64>) -> Seq<i64> {
    Seq::new(a.len(), |i: int| (sat64(a[i] - b[i]) as i64))
}

/// Every component multiplied by the scaled factor `k`.
pub open spec fn seq_scaled(a: Seq<i64>, k: i64) -> Seq<i64> {
    Seq::new(a.len(), |i: int| (mul_down(a[i] as int, k as int) as i64))
}

/// The scaled scalar `k` added to every component.
pub open spec fn seq_plus_scalar(a: Seq<i64>, k: i64) -> Seq<i64> {
    Seq::new(a.len(), |i: int| (sat64(a[i] + k) as i64))
}

/// Every component forced into `[lo, hi]`.
pub open spec fn seq_clamped(a: Seq<i64>, lo: i64, hi: i64) -> Seq<i64> {
    Seq::new(a.len(), |i: int| (clamp_int(a[i] as int, lo as int, hi as int) as i64))
}

/// Every component already inside `[lo, hi]`.
pub open spec fn seq_in_bounds(a: Seq<i64>, lo: i64, hi: i64) -> bool {
    forall|i: int| 0 <= i < a.len() ==> lo <= #[trigger] a[i] <= hi
}

/// Every component inside the half-open `[lo, hi)`, the range of a
/// uniform draw.
pub open spec fn seq_in_range(a: Seq<i64>, lo: i64, hi: i64) -> bool {
    forall|i: int| 0 <= i < a.len() ==> lo <= #[trigger] a[i] < hi
}

/// Clamping a sequence whose components already lie inside the bounds
/// hands it back unchanged.
pub proof fn lemma_clamp_within_is_noop(a: Seq<i64>, lo: i64, hi: i64)
    requires
        seq_in_bounds(a, lo, hi),
    ensures
        seq_clamped(a, lo, hi) == a,
{
    assert(seq_clamped(a, lo, hi) =~= a);
}

/// A clamped sequence lies inside the bounds whenever they are ordered.
pub proof fn lemma_clamp_in_bounds(a: Seq<i64>, lo: i64, hi: i64)
    requires
        lo <= hi,
    ensures
        seq_in_bounds(seq_clamped(a, lo, hi), lo, hi),
{
}

impl VectorN {
    /// Construct from the component list.
    pub fn new(coordinates: Vec<i64>) -> (r: VectorN)
        ensures
            r@ == coordinates@,
    {
        VectorN { coordinates }
    }

    /// The all-zero vector of the asked-for dimension: the default
    /// value of a vector of that dimension.
    pub fn zero(dimension: usize) -> (r: VectorN)
        ensures
            r@.len() == dimension,
            forall|i: int| 0 <= i < dimension ==> r@[i] == 0i64,
    {
        let mut coordinates: Vec<i64> = Vec::new();
        let mut k: usize = 0;
        while k < dimension
            invariant
                k <= dimension,
                coordinates@.len() == k,
                forall|i: int| 0 <= i < k ==> coordinates@[i] == 0i64,
            decreases dimension - k,
        {
            coordinates.push(0);
            k += 1;
        }
        VectorN { coordinates }
    }

    /// Number of components.
    pub fn dimension(&self) -> (r: usize)
        ensures
            r == self@.len(),
    {
        self.coordinates.len()
    }

    /// An owned copy with the same components.
    pub fn duplicate(&self) -> (r: VectorN)
        ensures
            r@ == self@,
    {
        let mut coordinates: Vec<i64> = Vec::new();
        let n = self.coordinates.len();
        let mut k: usize = 0;
        while k < n
            invariant
                k <= n,
                n == self@.len(),
                coordinates@ =~= self@.take(k as int),
            decreases n - k,
        {
            coordinates.push(self.coordinates[k]);
            k += 1;
        }
        proof {
            assert(coordinates@ =~= self@);
        }
        VectorN { coordinates }
    }

    /// Elementwise saturating accumulate: `self += rhs`.
    pub fn add_assign_vec(&mut self, rhs: &VectorN)
        requires
            old(self)@.len() == rhs@.len(),
        ensures
            final(self)@ == seq_sat_add(old(self)@, rhs@),
    {
        let n = self.coordinates.len();
        let mut k: usize = 0;
        while k < n
            invariant
                k <= n,
                n == old(self)@.len(),
                rhs@.len() == n,
                self@.len() == n,
                forall|i: int| k <= i < n ==> self@[i] == old(self)@[i],
                forall|i: int| 0 <= i < k ==> self@[i] == seq_sat_add(old(self)@, rhs@)[i],
            decreases n - k,
        {
            let v = sat_add(self.coordinates[k], rhs.coordinates[k]);
            self.coordinates[k] = v;
            k += 1;
        }
        proof {
            assert(self@ =~= seq_sat_add(old(self)@, rhs@));
        }
    }

    /// Elementwise saturating difference, as a new vector.
    pub fn sub_vec(&self, rhs: &VectorN) -> (r: VectorN)
        requires
            self@.len() == rhs@.len(),
        ensures
            r@ == seq_sat_sub(self@, rhs@),
    {
        let n = self.coordinates.len();
        let mut coordinates: Vec<i64> = Vec::new();
        let mut k: usize = 0;
        while k < n
            invariant
                k <= n,
                n == self@.len(),
                rhs@.len() == n,
                coordinates@.len() == k,
                forall|i: int| 0 <= i < k ==> coordinates@[i] == seq_sat_sub(self@, rhs@)[i],
            decreases n - k,
        {
            coordinates.push(sat_sub(self.coordinates[k], rhs.coordinates[k]));
            k += 1;
        }
        proof {
            assert(coordinates@ =~= seq_sat_sub(self@, rhs@));
        }
        VectorN { coordinates }
    }

    /// Every component multiplied by the scaled factor `k`, as a new
    /// vector.
    pub fn scale(&self, factor: i64) -> (r: VectorN)
        ensures
            r@ == seq_scaled(self@, factor),
    {
        let n = self.coordinates.len();
        let mut coordinates: Vec<i64> = Vec::new();
        let mut k: usize = 0;
        while k < n
            invariant
                k <= n,
                n == self@.len(),
                coordinates@.len() == k,
                forall|i: int| 0 <= i < k ==> coordinates@[i] == seq_scaled(self@, factor)[i],
            decreases n - k,
        {
            coordinates.push(mul_scaled(self.coordinates[k], factor));
            k += 1;
        }
        proof {
            assert(coordinates@ =~= seq_scaled(self@, factor));
        }
        VectorN { coordinates }
    }

    /// The scaled scalar `k` added to every component: `self += k`.
    pub fn add_scalar_assign(&mut self, k: i64)
        ensures
            final(self)@ == seq_plus_scalar(old(self)@, k),
    {
        let n = self.coordinates.len();
        let mut j: usize = 0;
        while j < n
            invariant
                j <= n,
                n == old(self)@.len(),
                self@.len() == n,
                forall|i: int| j <= i < n ==> self@[i] == old(self)@[i],
                forall|i: int| 0 <= i < j ==> self@[i] == seq_plus_scalar(old(self)@, k)[i],
            decreases n - j,
        {
            let v = sat_add(self.coordinates[j], k);
            self.coordinates[j] = v;
            j += 1;
        }
        proof {
            assert(self@ =~= seq_plus_scalar(old(self)@, k));
        }
    }

    /// Force every component into `[bounds.0, bounds.1]`, in place.
    pub fn clamp(&mut self, bounds: (i64, i64))
        ensures
            final(self)@ == seq_clamped(old(self)@, bounds.0, bounds.1),
    {
        let n = self.coordinates.len();
        let mut j: usize = 0;
        while j < n
            invariant
                j <= n,
                n == old(self)@.len(),
                self@.len() == n,
                forall|i: int| j <= i < n ==> self@[i] == old(self)@[i],
                forall|i: int| 0 <= i < j ==> self@[i] == seq_clamped(old(self)@, bounds.0, bounds.1)[i],
            decreases n - j,
        {
            let v = clamp_i64(self.coordinates[j], bounds.0, bounds.1);
            self.coordinates[j] = v;
            j += 1;
        }
        proof {
            assert(self@ =~= seq_clamped(old(self)@, bounds.0, bounds.1));
        }
    }
}

} // verus!
