//! The plot sampler's horizontal grid: exactly `count` positions
//! spaced evenly across the visible domain the rendering collaborator
//! hands in. Positions are in the collaborator's integer micro-units;
//! sampling a curve is evaluating the compiled expression once per
//! returned position, so re-sampling after a resolution change is
//! re-invoking with the new count, with no hidden state anywhere.
use vstd::prelude::*;

verus! {

/// Greatest accepted domain width, in micro-units.
pub const MAX_SPAN: i64 = 0x4000_0000_0000;

/// Greatest accepted number of positions.
pub const MAX_COUNT: usize = 100_000;

/// The position of sample `j` of `count` across `[lo, hi]`.
pub open spec fn sample_x(lo: int, hi: int, count: int, j: int) -> int {
    lo + ((hi - lo) * j) / (count - 1)
}

/// Exactly `count` positions, evenly spaced from `lo` to `hi`
/// inclusive, in nondecreasing order: a pure, repeatable function of
/// its arguments.
pub fn sample_xs(lo: i64, hi: i64, count: usize) -> (r: Vec<i64>)
    requires
        lo <= hi,
        hi - lo <= MAX_SPAN,
        2 <= count <= MAX_COUNT,
    ensures
        r@.len() == count,
        forall|j: int| 0 <= j < count ==> r@[j] == sample_x(lo as int, hi as int, count as int, j),
        r@[0] == lo,
        r@[count - 1] == hi,
        forall|j: int| 0 <= j < count - 1 ==> #[trigger] r@[j] <= r@[j + 1],
{
    let d: u64 = (hi - lo) as u64;
    let den: u64 = (count - 1) as u64;
    let mut r: Vec<i64> = Vec::new();
    let mut j: usize = 0;
    while j < count
        invariant
            lo <= hi,
            hi - lo <= MAX_SPAN,
            2 <= count <= MAX_COUNT,
            d == hi - lo,
            den == count - 1,
            j <= count,
            r@.len() == j,
            forall|k: int|
                0 <= k < j ==> r@[k] == sample_x(lo as int, hi as int, count as int, k),
        decreases count - j,
    {
        proof {
            vstd::arithmetic::mul::lemma_mul_upper_bound(
                d as int,
                MAX_SPAN as int,
                j as int,
                MAX_COUNT as int,
            );
            vstd::arithmetic::mul::lemma_mul_inequality(
                j as int,
                count - 1,
                d as int,
            );
            vstd::arithmetic::mul::lemma_mul_is_commutative(j as int, d as int);
            vstd::arithmetic::mul::lemma_mul_is_commutative(count - 1, d as int);
            vstd::arithmetic::div_mod::lemma_div_is_ordered(
                d as int * j as int,
                d as int * (count - 1),
                count - 1,
            );
            vstd::arithmetic::div_mod::lemma_div_by_multiple(d as int, count - 1);
            vstd::arithmetic::div_mod::lemma_div_pos_is_pos(d as int * j as int, count - 1);
            vstd::arithmetic::mul::lemma_mul_nonnegative(d as int, j as int);
        }
        let q: u64 = (d * j as u64) / den;
        r.push(lo + q as i64);
        j = j + 1;
    }
    proof {
        assert(r@[0] == lo + ((hi - lo) * 0) / (count - 1));
        assert((hi - lo) * 0 == 0) by (nonlinear_arith);
        assert(r@[count - 1] == lo + ((hi - lo) * (count - 1)) / (count - 1));
        vstd::arithmetic::div_mod::lemma_div_by_multiple(hi - lo, count - 1);
        vstd::arithmetic::mul::lemma_mul_is_commutative(hi - lo, count - 1);
        assert forall|j2: int| 0 <= j2 < count - 1 implies #[trigger] r@[j2] <= r@[j2 + 1] by {
            vstd::arithmetic::mul::lemma_mul_inequality(j2, j2 + 1, hi - lo);
            vstd::arithmetic::mul::lemma_mul_is_commutative(j2, hi - lo);
            vstd::arithmetic::mul::lemma_mul_is_commutative(j2 + 1, hi - lo);
            vstd::arithmetic::div_mod::lemma_div_is_ordered(
                (hi - lo) * j2,
                (hi - lo) * (j2 + 1),
                count - 1,
            );
        }
    }
    r
}

} // verus!
