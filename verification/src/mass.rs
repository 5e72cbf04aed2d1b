//! How much of the die's throw each element receives, and why that is its weight.
//!
//! Bucket `i` gives `prob[i]` parts to its own element and the parts that remain to certainty
//! to the element of its alias. The mass of an element is what all buckets together give it.
//! Under a fair `n`-sided die and a coin that honours every probability, an element is drawn
//! with probability `mass / (n * UNIT)`. Construction keeps that mass, plus what a waiting
//! bucket still holds, at `n` times the element's weight.

use vstd::prelude::*;
use crate::model::{heavy, light, scale, Ledger};
use crate::sound::{
    lemma_finish, lemma_start_sound, lemma_pair_off_sound, lemma_transfer_sound,
    lemma_transfer_waiting,
};
use crate::weights::{non_negative, total, UNIT};

verus! {

/// What bucket `from` gives to the element of bucket `to`, in parts of [`UNIT`].
pub open spec fn share(prob: Seq<int>, alias: Seq<Option<int>>, from: int, to: int) -> int {
    let kept = if from == to {
        prob[from]
    } else {
        0
    };
    let passed = if alias[from] == Some(to) {
        UNIT - prob[from]
    } else {
        0
    };
    kept + passed
}

/// What the buckets before `upto` give to the element of bucket `to`.
pub open spec fn mass_before(prob: Seq<int>, alias: Seq<Option<int>>, to: int, upto: int) -> int
    decreases upto,
{
    if upto <= 0 {
        0
    } else {
        mass_before(prob, alias, to, upto - 1) + share(prob, alias, upto - 1, to)
    }
}

/// What all buckets give to the element of bucket `to`.
pub open spec fn mass(prob: Seq<int>, alias: Seq<Option<int>>, to: int) -> int {
    mass_before(prob, alias, to, prob.len() as int)
}

/// By how much the buckets of `list` together hold more than [`UNIT`] each.
pub open spec fn excess(list: Seq<int>, scaled: Seq<int>) -> int
    decreases list.len(),
{
    if list.len() == 0 {
        0
    } else {
        excess(list.drop_last(), scaled) + scaled[list.last()] - UNIT
    }
}

impl Ledger {
    /// What bucket `b` still holds for its own element while it waits.
    pub open spec fn held(self, b: int) -> int {
        if self.waiting(b) {
            self.scaled[b]
        } else {
            0
        }
    }

    /// Nothing has been lost or made: what each element has been given and what its bucket
    /// still holds make `n` times its weight, and the waiting buckets together exceed
    /// [`UNIT`] each by as much as the weights exceed it, `n` times over.
    pub open spec fn balanced(self, weights: Seq<i64>) -> bool {
        let n = weights.len();
        &&& self.scaled.len() == n
        &&& forall|j: int|
            0 <= j < n ==> #[trigger] mass(self.prob, self.alias, j) + self.held(j) == n
                * weights[j]
        &&& excess(self.small, self.scaled) + excess(self.large, self.scaled) == n * (total(
            weights,
        ) - UNIT)
    }
}

/// Entries that differ in one bucket alone give masses that differ by that bucket's share.
pub proof fn lemma_mass_one_bucket(
    prob: Seq<int>,
    alias: Seq<Option<int>>,
    prob2: Seq<int>,
    alias2: Seq<Option<int>>,
    at: int,
    to: int,
    upto: int,
)
    requires
        prob.len() == alias.len(),
        prob2.len() == prob.len(),
        alias2.len() == prob.len(),
        0 <= upto <= prob.len(),
        forall|i: int| 0 <= i < prob.len() && i != at ==> prob2[i] == prob[i],
        forall|i: int| 0 <= i < prob.len() && i != at ==> alias2[i] == alias[i],
    ensures
        mass_before(prob2, alias2, to, upto) == mass_before(prob, alias, to, upto) + if 0 <= at
            < upto {
            share(prob2, alias2, at, to) - share(prob, alias, at, to)
        } else {
            0
        },
    decreases upto,
{
    if upto > 0 {
        lemma_mass_one_bucket(prob, alias, prob2, alias2, at, to, upto - 1);
    }
}

/// Buckets without entries give nothing.
pub proof fn lemma_mass_nothing(prob: Seq<int>, alias: Seq<Option<int>>, to: int, upto: int)
    requires
        prob.len() == alias.len(),
        0 <= upto <= prob.len(),
        forall|i: int| 0 <= i < prob.len() ==> prob[i] == 0 && alias[i] is None,
    ensures
        mass_before(prob, alias, to, upto) == 0,
    decreases upto,
{
    if upto > 0 {
        lemma_mass_nothing(prob, alias, to, upto - 1);
    }
}

/// A list's excess does not depend on the holding of a bucket that is not on it.
pub proof fn lemma_excess_elsewhere(list: Seq<int>, scaled: Seq<int>, b: int, holding: int)
    requires
        0 <= b < scaled.len(),
        forall|k: int| 0 <= k < list.len() ==> 0 <= #[trigger] list[k] < scaled.len(),
        !list.contains(b),
    ensures
        excess(list, scaled.update(b, holding)) == excess(list, scaled),
    decreases list.len(),
{
    if list.len() > 0 {
        let front = list.drop_last();
        assert(list[list.len() - 1] == list.last());
        assert forall|k: int| 0 <= k < front.len() implies 0 <= #[trigger] front[k]
            < scaled.len() by {
            assert(front[k] == list[k]);
        }
        if front.contains(b) {
            let k = choose|k: int| 0 <= k < front.len() && front[k] == b;
            assert(list[k] == b);
        }
        lemma_excess_elsewhere(front, scaled, b, holding);
    }
}

/// Where every bucket of a list holds [`UNIT`] or more, none exceeds it by more than the
/// list does.
pub proof fn lemma_excess_of_large(list: Seq<int>, scaled: Seq<int>)
    requires
        forall|k: int| 0 <= k < list.len() ==> scaled[#[trigger] list[k]] >= UNIT,
    ensures
        excess(list, scaled) >= 0,
        forall|k: int| 0 <= k < list.len() ==> scaled[#[trigger] list[k]] - UNIT <= excess(
            list,
            scaled,
        ),
    decreases list.len(),
{
    if list.len() > 0 {
        let front = list.drop_last();
        assert(list[list.len() - 1] == list.last());
        assert forall|k: int| 0 <= k < front.len() implies scaled[#[trigger] front[k]]
            >= UNIT by {
            assert(front[k] == list[k]);
        }
        lemma_excess_of_large(front, scaled);
        assert forall|k: int| 0 <= k < list.len() implies scaled[#[trigger] list[k]] - UNIT
            <= excess(list, scaled) by {
            if k < front.len() {
                assert(front[k] == list[k]);
            }
        }
    }
}

/// Where every bucket of a list holds less than [`UNIT`], none falls short of it by more
/// than the list does.
pub proof fn lemma_excess_of_small(list: Seq<int>, scaled: Seq<int>)
    requires
        forall|k: int| 0 <= k < list.len() ==> scaled[#[trigger] list[k]] < UNIT,
    ensures
        excess(list, scaled) <= 0,
        forall|k: int| 0 <= k < list.len() ==> excess(list, scaled) <= scaled[#[trigger] list[k]]
            - UNIT,
    decreases list.len(),
{
    if list.len() > 0 {
        let front = list.drop_last();
        assert(list[list.len() - 1] == list.last());
        assert forall|k: int| 0 <= k < front.len() implies scaled[#[trigger] front[k]]
            < UNIT by {
            assert(front[k] == list[k]);
        }
        lemma_excess_of_small(front, scaled);
        assert forall|k: int| 0 <= k < list.len() implies excess(list, scaled)
            <= scaled[#[trigger] list[k]] - UNIT by {
            if k < front.len() {
                assert(front[k] == list[k]);
            }
        }
    }
}

/// The two opening worklists over the first `upto` buckets exceed [`UNIT`] each by the sum
/// of the scaled weights less `upto` units.
pub proof fn lemma_start_excess(weights: Seq<i64>, upto: int)
    requires
        0 <= upto <= weights.len(),
    ensures
        excess(light(scale(weights), upto), scale(weights)) + excess(
            heavy(scale(weights), upto),
            scale(weights),
        ) == weights.len() * total(weights.take(upto)) - upto * UNIT,
    decreases upto,
{
    let scaled = scale(weights);
    let n = weights.len() as int;
    if upto > 0 {
        lemma_start_excess(weights, upto - 1);
        let before = total(weights.take(upto - 1));
        let w = weights[upto - 1] as int;
        assert(weights.take(upto).drop_last() =~= weights.take(upto - 1));
        assert(n * (before + w) == n * before + w * n) by (nonlinear_arith);
        if scaled[upto - 1] < UNIT {
            assert(light(scaled, upto).drop_last() =~= light(scaled, upto - 1));
        } else {
            assert(heavy(scaled, upto).drop_last() =~= heavy(scaled, upto - 1));
        }
    }
}

/// A construction starts balanced.
pub proof fn lemma_start_balanced(weights: Seq<i64>)
    requires
        non_negative(weights),
    ensures
        Ledger::start(weights).balanced(weights),
{
    let s = Ledger::start(weights);
    let n = weights.len() as int;
    lemma_start_sound(weights);
    lemma_start_excess(weights, n);
    assert(weights.take(n) =~= weights);
    assert(n * (total(weights) - UNIT) == n * total(weights) - n * UNIT) by (nonlinear_arith);
    assert forall|j: int| 0 <= j < n implies #[trigger] mass(s.prob, s.alias, j) + s.held(j) == n
        * weights[j] by {
        lemma_mass_nothing(s.prob, s.alias, j, n);
    }
}

/// A transfer keeps the state balanced.
pub proof fn lemma_transfer_balanced(s: Ledger, weights: Seq<i64>)
    requires
        s.sound(),
        s.balanced(weights),
        !s.spent(),
    ensures
        s.transfer().balanced(weights),
{
    let t = s.transfer();
    let n = weights.len() as int;
    let l = s.small.last();
    let g = s.large.last();
    let rest = s.scaled[g] + s.scaled[l] - UNIT;
    let front = s.small.drop_last();
    let back = s.large.drop_last();
    lemma_transfer_waiting(s);
    lemma_transfer_sound(s);
    assert(s.waiting(l));
    assert forall|j: int| 0 <= j < n implies #[trigger] mass(t.prob, t.alias, j) + t.held(j) == n
        * weights[j] by {
        lemma_mass_one_bucket(s.prob, s.alias, t.prob, t.alias, l, j, n);
        assert(mass(s.prob, s.alias, j) + s.held(j) == n * weights[j]);
    }
    assert(excess(t.small, t.scaled) + excess(t.large, t.scaled) == excess(s.small, s.scaled)
        + excess(s.large, s.scaled)) by {
        assert forall|k: int| 0 <= k < front.len() implies 0 <= #[trigger] front[k] < n by {
            assert(front[k] == s.small[k]);
        }
        assert forall|k: int| 0 <= k < back.len() implies 0 <= #[trigger] back[k] < n by {
            assert(back[k] == s.large[k]);
        }
        if front.contains(g) {
            let k = choose|k: int| 0 <= k < front.len() && front[k] == g;
            assert(s.small[k] == g);
        }
        if back.contains(g) {
            let k = choose|k: int| 0 <= k < back.len() && back[k] == g;
            assert(s.large[k] == g);
        }
        lemma_excess_elsewhere(front, s.scaled, g, rest);
        lemma_excess_elsewhere(back, s.scaled, g, rest);
        if rest < UNIT {
            assert(t.small.drop_last() =~= front);
        }
    }
}

/// Transfers end in a balanced state.
pub proof fn lemma_pair_off_balanced(s: Ledger, weights: Seq<i64>)
    requires
        s.sound(),
        s.balanced(weights),
    ensures
        s.pair_off().balanced(weights),
    decreases s.small.len() + s.large.len(),
{
    if !s.spent() {
        lemma_transfer_sound(s);
        lemma_transfer_balanced(s, weights);
        lemma_pair_off_balanced(s.transfer(), weights);
    }
}

/// Closing gives a whole unit to the element of every bucket that was waiting, and nothing
/// else to anyone.
pub proof fn lemma_finish_mass(s: Ledger, to: int, upto: int)
    requires
        s.sound(),
        0 <= upto <= s.scaled.len(),
    ensures
        mass_before(s.finish().prob, s.finish().alias, to, upto) == mass_before(
            s.prob,
            s.alias,
            to,
            upto,
        ) + if 0 <= to < upto && s.waiting(to) {
            UNIT as int
        } else {
            0
        },
    decreases upto,
{
    if upto > 0 {
        lemma_finish_mass(s, to, upto - 1);
        lemma_finish(s);
        let b = upto - 1;
        assert(s.finish().prob[b] == if s.waiting(b) {
            UNIT as int
        } else {
            s.prob[b]
        });
    }
}

/// What the finished tables give to the element of bucket `to`, against `n` times its
/// weight. Where the weights sum to [`UNIT`] the two are equal. Where they sum to more, the
/// element is given no more than that and falls short of it by no more than `n` times what
/// the sum has too much; where they sum to less, it is given no less and exceeds it by no
/// more than `n` times what the sum lacks.
pub proof fn lemma_built_mass(weights: Seq<i64>, to: int)
    requires
        non_negative(weights),
        0 <= to < weights.len(),
    ensures
        ({
            let tables = Ledger::built(weights);
            let given = mass(tables.prob, tables.alias, to);
            let due = weights.len() * weights[to];
            let surplus = weights.len() * (total(weights) - UNIT);
            &&& total(weights) == UNIT ==> given == due
            &&& total(weights) >= UNIT ==> due - surplus <= given <= due
            &&& total(weights) <= UNIT ==> due <= given <= due - surplus
        }),
{
    let n = weights.len() as int;
    let start = Ledger::start(weights);
    let end = start.pair_off();
    let sum = total(weights);
    let surplus = n * (sum - UNIT);
    lemma_start_sound(weights);
    lemma_start_balanced(weights);
    lemma_pair_off_sound(start);
    lemma_pair_off_balanced(start, weights);
    lemma_finish(end);
    lemma_finish_mass(end, to, n);
    assert(mass(end.prob, end.alias, to) + end.held(to) == n * weights[to]);
    assert(sum >= UNIT ==> surplus >= 0) by (nonlinear_arith)
        requires
            surplus == n * (sum - UNIT),
            n > 0,
    ;
    assert(sum <= UNIT ==> surplus <= 0) by (nonlinear_arith)
        requires
            surplus == n * (sum - UNIT),
            n > 0,
    ;
    lemma_excess_of_small(end.small, end.scaled);
    lemma_excess_of_large(end.large, end.scaled);
    if end.small.contains(to) {
        let k = choose|k: int| 0 <= k < end.small.len() && end.small[k] == to;
        assert(surplus <= end.scaled[end.small[k]] - UNIT);
    } else if end.large.contains(to) {
        let k = choose|k: int| 0 <= k < end.large.len() && end.large[k] == to;
        assert(end.scaled[end.large[k]] - UNIT <= surplus);
    }
}

} // verus!
