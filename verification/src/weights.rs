//! Fixed-point weights and the test that decides whether they form a distribution.

use vstd::prelude::*;

verus! {

/// The number of parts that make probability one.
pub const UNIT: u64 = 1_000_000_000;

/// How far the sum of the weights may lie from [`UNIT`] when no other tolerance is given:
/// one ten-thousandth of certainty.
pub const DEFAULT_TOLERANCE: u64 = 100_000;

/// The sum of all weights.
pub open spec fn total(weights: Seq<i64>) -> int
    decreases weights.len(),
{
    if weights.len() == 0 {
        0
    } else {
        total(weights.drop_last()) + weights.last()
    }
}

/// No weight is negative.
pub open spec fn non_negative(weights: Seq<i64>) -> bool {
    forall|i: int| 0 <= i < weights.len() ==> weights[i] >= 0
}

/// `sum` lies no further than `tolerance` from [`UNIT`].
pub open spec fn near_unit(sum: int, tolerance: int) -> bool {
    UNIT - tolerance <= sum <= UNIT + tolerance
}

/// The weights describe a probability distribution: none is negative, and together they
/// make [`UNIT`] to within `tolerance`.
pub open spec fn is_distribution(weights: Seq<i64>, tolerance: int) -> bool {
    non_negative(weights) && near_unit(total(weights), tolerance)
}

/// Decides whether `weights` describe a distribution within `tolerance`.
pub fn check_distribution(weights: &Vec<i64>, tolerance: u64) -> (ok: bool)
    ensures
        ok == is_distribution(weights@, tolerance as int),
{
    let n: usize = weights.len();
    let mut sum: i128 = 0;
    let mut i: usize = 0;
    while i < n
        invariant
            n == weights.len(),
            0 <= i <= n,
            non_negative(weights@.take(i as int)),
            sum == total(weights@.take(i as int)),
            0 <= sum <= i * i64::MAX,
        decreases n - i,
    {
        let w: i64 = weights[i];
        if w < 0 {
            return false;
        }
        proof {
            assert(weights@.take(i + 1).drop_last() =~= weights@.take(i as int));
        }
        sum = sum + w as i128;
        i = i + 1;
    }
    proof {
        assert(weights@.take(n as int) =~= weights@);
    }
    let one: i128 = UNIT as i128;
    let slack: i128 = tolerance as i128;
    one - slack <= sum && sum <= one + slack
}

} // verus!
