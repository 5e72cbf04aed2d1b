//! The construction of the two tables, stated on mathematical integers.
//!
//! Every weight is first scaled by the number of buckets, so that a bucket holding exactly
//! its fair share holds [`UNIT`]. Buckets below their share wait on the `small` worklist,
//! the others on the `large` one. A transfer takes the top of each list, settles the small
//! bucket for good and charges what it lacks to the large one. When either list runs out,
//! the buckets still waiting are made certain.

use vstd::prelude::*;
use crate::weights::UNIT;

verus! {

/// The state of a construction under way.
pub struct Ledger {
    /// Buckets waiting with less than their share; the last one is taken first.
    pub small: Seq<int>,
    /// Buckets waiting with their share or more; the last one is taken first.
    pub large: Seq<int>,
    /// What each bucket still holds, scaled by the number of buckets.
    pub scaled: Seq<int>,
    /// The acceptance probability of each settled bucket, in parts of [`UNIT`].
    pub prob: Seq<int>,
    /// The bucket that each settled bucket falls back on.
    pub alias: Seq<Option<int>>,
}

/// Each weight multiplied by the number of weights.
pub open spec fn scale(weights: Seq<i64>) -> Seq<int> {
    Seq::new(weights.len(), |i: int| weights[i] * weights.len())
}

/// The buckets before `upto` that hold less than [`UNIT`], in rising order.
pub open spec fn light(scaled: Seq<int>, upto: int) -> Seq<int>
    decreases upto,
{
    if upto <= 0 {
        Seq::empty()
    } else if scaled[upto - 1] < UNIT {
        light(scaled, upto - 1).push(upto - 1)
    } else {
        light(scaled, upto - 1)
    }
}

/// The buckets before `upto` that hold [`UNIT`] or more, in rising order.
pub open spec fn heavy(scaled: Seq<int>, upto: int) -> Seq<int>
    decreases upto,
{
    if upto <= 0 {
        Seq::empty()
    } else if scaled[upto - 1] < UNIT {
        heavy(scaled, upto - 1)
    } else {
        heavy(scaled, upto - 1).push(upto - 1)
    }
}

/// `prob` with every bucket of `waiting` made certain.
pub open spec fn certain(prob: Seq<int>, waiting: Seq<int>) -> Seq<int>
    decreases waiting.len(),
{
    if waiting.len() == 0 {
        prob
    } else {
        certain(prob.update(waiting.last(), UNIT as int), waiting.drop_last())
    }
}

impl Ledger {
    /// The state before the first transfer: every bucket waits, none is settled.
    pub open spec fn start(weights: Seq<i64>) -> Ledger {
        let scaled = scale(weights);
        Ledger {
            small: light(scaled, weights.len() as int),
            large: heavy(scaled, weights.len() as int),
            scaled,
            prob: Seq::new(weights.len(), |i: int| 0int),
            alias: Seq::new(weights.len(), |i: int| None::<int>),
        }
    }

    /// No transfer is possible: one of the worklists is empty.
    pub open spec fn spent(self) -> bool {
        self.small.len() == 0 || self.large.len() == 0
    }

    /// One transfer. The top of `small` is settled with what it holds as its probability and
    /// the top of `large` as its alias; the large bucket pays the difference and waits again,
    /// on the list that its new holding puts it on.
    pub open spec fn transfer(self) -> Ledger {
        let l = self.small.last();
        let g = self.large.last();
        let rest = self.scaled[g] + self.scaled[l] - UNIT;
        Ledger {
            small: if rest < UNIT {
                self.small.drop_last().push(g)
            } else {
                self.small.drop_last()
            },
            large: if rest < UNIT {
                self.large.drop_last()
            } else {
                self.large
            },
            scaled: self.scaled.update(g, rest),
            prob: self.prob.update(l, self.scaled[l]),
            alias: self.alias.update(l, Some(g)),
        }
    }

    /// Transfers repeated until none is possible.
    pub open spec fn pair_off(self) -> Ledger
        decreases self.small.len() + self.large.len(),
    {
        if self.spent() {
            self
        } else {
            self.transfer().pair_off()
        }
    }

    /// Every bucket still waiting is made certain, first those of `large`, then those of
    /// `small`, and both worklists are emptied.
    pub open spec fn finish(self) -> Ledger {
        Ledger {
            small: Seq::empty(),
            large: Seq::empty(),
            scaled: self.scaled,
            prob: certain(certain(self.prob, self.large), self.small),
            alias: self.alias,
        }
    }

    /// The finished construction for `weights`.
    pub open spec fn built(weights: Seq<i64>) -> Ledger {
        Ledger::start(weights).pair_off().finish()
    }
}

} // verus!
