use crate::ring_math::{lemma_one_is_pow2, lemma_pow2_double, lemma_pow2_exponent, lemma_pow2_gap};
use vstd::arithmetic::div_mod::{
    lemma_fundamental_div_mod, lemma_mod_division_less_than_divisor, lemma_mod_multiples_basic,
};
use vstd::arithmetic::power2::is_pow2;
use vstd::prelude::*;

verus! {

/// The smallest power of two that is at least `n` (and one, for zero). The
/// bound on `n` leaves room for the result to be doubled when the region is
/// allocated twice.
pub fn next_pow2(n: usize) -> (r: usize)
    requires
        n <= usize::MAX / 4 + 1,
    ensures
        is_pow2(r as int),
        r >= n,
        forall|q: usize| is_pow2(q as int) && q >= n ==> r <= q,
{
    proof {
        lemma_one_is_pow2();
        assert forall|q: usize| is_pow2(q as int) && q >= n implies 1 <= q by {
            lemma_pow2_exponent(q);
        }
    }
    let mut p: usize = 1;
    while p < n
        invariant
            is_pow2(p as int),
            1 <= p,
            n <= usize::MAX / 4 + 1,
            forall|q: usize| is_pow2(q as int) && q >= n ==> p <= q,
        decreases 2 * n - p,
    {
        proof {
            assert forall|q: usize| is_pow2(q as int) && q >= n implies 2 * p <= q by {
                lemma_pow2_gap(p, q);
            }
            lemma_pow2_double(p);
        }
        p = 2 * p;
    }
    p
}

/// Rounding a size up to the next multiple of an alignment, used when sizing
/// allocations to a whole number of pages.
pub trait NearestMultiple<T> {
    /// When is the rounding well defined (no overflow, positive alignment)?
    spec fn round_up_ok(&self, multiple: T) -> bool;

    /// The least multiple of `multiple` that is greater than or equal to `self`.
    fn round_up_to_multiple(&self, multiple: T) -> (r: T)
        requires
            self.round_up_ok(multiple),
    ;
}

impl NearestMultiple<usize> for usize {
    open spec fn round_up_ok(&self, multiple: usize) -> bool {
        &&& 1 <= *self
        &&& 1 <= multiple
        &&& *self + multiple <= usize::MAX
    }

    fn round_up_to_multiple(&self, multiple: usize) -> (r: usize)
        ensures
            r % multiple == 0,
            *self <= r < *self + multiple,
    {
        proof {
            let s = *self as int;
            let m = multiple as int;
            lemma_fundamental_div_mod(s - 1, m);
            lemma_mod_division_less_than_divisor(s - 1, m);
            let q = (s - 1) / m;
            assert(s + m - 1 - (s - 1) % m == m * q + m);
            assert(m * q + m == (q + 1) * m) by (nonlinear_arith);
            lemma_mod_multiples_basic(q + 1, m);
        }
        *self + multiple - 1 - (*self - 1) % multiple
    }
}

} // verus!
