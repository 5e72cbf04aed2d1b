//! What every state of a construction satisfies, and what follows for the finished tables.

use vstd::prelude::*;
use crate::model::{certain, heavy, light, scale, Ledger};
use crate::weights::{non_negative, UNIT};

verus! {

impl Ledger {
    /// Bucket `b` is on one of the worklists.
    pub open spec fn waiting(self, b: int) -> bool {
        self.small.contains(b) || self.large.contains(b)
    }

    /// Bucket `b` has its final entries: a probability short of certainty and, as alias,
    /// another bucket of the table.
    pub open spec fn settled(self, b: int) -> bool {
        &&& 0 <= self.prob[b] < UNIT
        &&& self.alias[b] matches Some(a) && 0 <= a < self.scaled.len() && a != b
    }

    /// The worklists hold buckets of the table, each at most once and on the list that its
    /// holding asks for; a waiting bucket has no entries yet, any other is settled.
    pub open spec fn sound(self) -> bool {
        let n = self.scaled.len();
        &&& self.prob.len() == n
        &&& self.alias.len() == n
        &&& forall|k: int|
            0 <= k < self.small.len() ==> 0 <= #[trigger] self.small[k] < n && 0
                <= self.scaled[self.small[k]] < UNIT
        &&& forall|k: int|
            0 <= k < self.large.len() ==> 0 <= #[trigger] self.large[k] < n
                && self.scaled[self.large[k]] >= UNIT
        &&& self.small.no_duplicates()
        &&& self.large.no_duplicates()
        &&& forall|b: int|
            0 <= b < n ==> if #[trigger] self.waiting(b) {
                self.alias[b] is None && self.prob[b] == 0
            } else {
                self.settled(b)
            }
    }
}

/// `light` lists, in rising order and once each, exactly the buckets before `upto` that
/// hold less than [`UNIT`].
pub proof fn lemma_light(scaled: Seq<int>, upto: int)
    requires
        0 <= upto <= scaled.len(),
    ensures
        forall|k: int|
            0 <= k < light(scaled, upto).len() ==> 0 <= #[trigger] light(scaled, upto)[k] < upto
                && scaled[light(scaled, upto)[k]] < UNIT,
        light(scaled, upto).no_duplicates(),
        forall|b: int|
            0 <= b < upto && scaled[b] < UNIT ==> #[trigger] light(scaled, upto).contains(b),
    decreases upto,
{
    if upto > 0 {
        lemma_light(scaled, upto - 1);
        let before = light(scaled, upto - 1);
        let now = light(scaled, upto);
        assert forall|b: int| 0 <= b < upto && scaled[b] < UNIT implies #[trigger] now.contains(
            b,
        ) by {
            if b < upto - 1 {
                assert(before.contains(b));
                let k = choose|k: int| 0 <= k < before.len() && before[k] == b;
                assert(now[k] == b);
            } else {
                assert(now[now.len() - 1] == b);
            }
        }
    }
}

/// `heavy` lists, in rising order and once each, exactly the buckets before `upto` that
/// hold [`UNIT`] or more.
pub proof fn lemma_heavy(scaled: Seq<int>, upto: int)
    requires
        0 <= upto <= scaled.len(),
    ensures
        forall|k: int|
            0 <= k < heavy(scaled, upto).len() ==> 0 <= #[trigger] heavy(scaled, upto)[k] < upto
                && scaled[heavy(scaled, upto)[k]] >= UNIT,
        heavy(scaled, upto).no_duplicates(),
        forall|b: int|
            0 <= b < upto && scaled[b] >= UNIT ==> #[trigger] heavy(scaled, upto).contains(b),
    decreases upto,
{
    if upto > 0 {
        lemma_heavy(scaled, upto - 1);
        let before = heavy(scaled, upto - 1);
        let now = heavy(scaled, upto);
        assert forall|b: int| 0 <= b < upto && scaled[b] >= UNIT implies #[trigger] now.contains(
            b,
        ) by {
            if b < upto - 1 {
                assert(before.contains(b));
                let k = choose|k: int| 0 <= k < before.len() && before[k] == b;
                assert(now[k] == b);
            } else {
                assert(now[now.len() - 1] == b);
            }
        }
    }
}

/// No scaled weight is negative when no weight is.
pub proof fn lemma_scale_non_negative(weights: Seq<i64>)
    requires
        non_negative(weights),
    ensures
        forall|i: int| 0 <= i < weights.len() ==> #[trigger] scale(weights)[i] >= 0,
{
    assert forall|i: int| 0 <= i < weights.len() implies #[trigger] scale(weights)[i] >= 0 by {
        let w = weights[i] as int;
        let n = weights.len() as int;
        assert(w * n >= 0) by (nonlinear_arith)
            requires
                w >= 0,
                n >= 0,
        ;
    }
}

/// A construction starts in a sound state.
pub proof fn lemma_start_sound(weights: Seq<i64>)
    requires
        non_negative(weights),
    ensures
        Ledger::start(weights).sound(),
        forall|b: int| 0 <= b < weights.len() ==> #[trigger] Ledger::start(weights).waiting(b),
{
    let s = Ledger::start(weights);
    let n = weights.len() as int;
    lemma_scale_non_negative(weights);
    lemma_light(s.scaled, n);
    lemma_heavy(s.scaled, n);
}

/// A transfer takes the top of `small` off the worklists and leaves every other bucket
/// waiting or not as it was.
pub proof fn lemma_transfer_waiting(s: Ledger)
    requires
        s.sound(),
        !s.spent(),
    ensures
        s.small.last() != s.large.last(),
        !s.transfer().waiting(s.small.last()),
        forall|b: int|
            b != s.small.last() ==> (#[trigger] s.transfer().waiting(b) <==> s.waiting(b)),
{
    let t = s.transfer();
    let l = s.small.last();
    let g = s.large.last();
    let front = s.small.drop_last();
    let back = s.large.drop_last();
    assert forall|b: int| front.contains(b) implies s.small.contains(b) && b != l by {
        let k = choose|k: int| 0 <= k < front.len() && front[k] == b;
        assert(s.small[k] == b);
    }
    assert forall|b: int| back.contains(b) implies s.large.contains(b) && b != g by {
        let k = choose|k: int| 0 <= k < back.len() && back[k] == b;
        assert(s.large[k] == b);
    }
    assert forall|b: int| s.small.contains(b) implies s.scaled[b] < UNIT by {
        let k = choose|k: int| 0 <= k < s.small.len() && s.small[k] == b;
        assert(s.scaled[s.small[k]] < UNIT);
    }
    assert forall|b: int| s.large.contains(b) implies s.scaled[b] >= UNIT by {
        let k = choose|k: int| 0 <= k < s.large.len() && s.large[k] == b;
        assert(s.scaled[s.large[k]] >= UNIT);
    }
    assert forall|b: int| b != l implies (#[trigger] t.waiting(b) <==> s.waiting(b)) by {
        if t.small.contains(b) {
            let k = choose|k: int| 0 <= k < t.small.len() && t.small[k] == b;
            assert(k < front.len() ==> front[k] == b);
        }
        if s.small.contains(b) {
            let k = choose|k: int| 0 <= k < s.small.len() && s.small[k] == b;
            assert(t.small[k] == b);
        }
        if s.large.contains(b) {
            let k = choose|k: int| 0 <= k < s.large.len() && s.large[k] == b;
            if b != g {
                assert(back[k] == b);
            } else if t.small.len() == s.small.len() {
                assert(t.small[t.small.len() - 1] == g);
            }
        }
    }
    if t.small.contains(l) {
        let k = choose|k: int| 0 <= k < t.small.len() && t.small[k] == l;
        assert(k < front.len() ==> front[k] == l);
    }
}

/// A transfer keeps the state sound.
pub proof fn lemma_transfer_sound(s: Ledger)
    requires
        s.sound(),
        !s.spent(),
    ensures
        s.transfer().sound(),
{
    let t = s.transfer();
    let n = s.scaled.len() as int;
    let l = s.small.last();
    lemma_transfer_waiting(s);
    assert forall|k: int| 0 <= k < t.small.len() implies 0 <= #[trigger] t.small[k] < n && 0
        <= t.scaled[t.small[k]] < UNIT by {
        if k < s.small.len() - 1 {
            assert(t.small[k] == s.small[k]);
        }
    }
    assert forall|k: int| 0 <= k < t.large.len() implies 0 <= #[trigger] t.large[k] < n
        && t.scaled[t.large[k]] >= UNIT by {
        assert(t.large[k] == s.large[k]);
    }
    assert forall|i: int, j: int|
        0 <= i < t.small.len() && 0 <= j < t.small.len() && i != j implies t.small[i]
        != t.small[j] by {
        assert(i < s.small.len() - 1 ==> t.small[i] == s.small[i]);
        assert(j < s.small.len() - 1 ==> t.small[j] == s.small[j]);
    }
    assert forall|i: int, j: int|
        0 <= i < t.large.len() && 0 <= j < t.large.len() && i != j implies t.large[i]
        != t.large[j] by {
        assert(t.large[i] == s.large[i] && t.large[j] == s.large[j]);
    }
    assert forall|b: int| 0 <= b < n implies if #[trigger] t.waiting(b) {
        t.alias[b] is None && t.prob[b] == 0
    } else {
        t.settled(b)
    } by {
        if b != l && !s.waiting(b) {
            assert(s.settled(b));
        }
    }
}

/// Transfers end in a sound state in which one worklist is empty.
pub proof fn lemma_pair_off_sound(s: Ledger)
    requires
        s.sound(),
    ensures
        s.pair_off().sound(),
        s.pair_off().spent(),
        s.pair_off().scaled.len() == s.scaled.len(),
    decreases s.small.len() + s.large.len(),
{
    if !s.spent() {
        lemma_transfer_sound(s);
        lemma_pair_off_sound(s.transfer());
    }
}

/// Making the buckets of `waiting` certain touches no other entry.
pub proof fn lemma_certain(prob: Seq<int>, waiting: Seq<int>)
    requires
        forall|k: int| 0 <= k < waiting.len() ==> 0 <= #[trigger] waiting[k] < prob.len(),
    ensures
        certain(prob, waiting).len() == prob.len(),
        forall|b: int|
            0 <= b < prob.len() ==> #[trigger] certain(prob, waiting)[b] == if waiting.contains(b) {
                UNIT as int
            } else {
                prob[b]
            },
    decreases waiting.len(),
{
    if waiting.len() > 0 {
        let top = waiting.last();
        let front = waiting.drop_last();
        assert forall|k: int| 0 <= k < front.len() implies 0 <= #[trigger] front[k] < prob.len() by {
            assert(front[k] == waiting[k]);
        }
        lemma_certain(prob.update(top, UNIT as int), front);
        assert forall|b: int| 0 <= b < prob.len() implies #[trigger] certain(prob, waiting)[b]
            == if waiting.contains(b) {
            UNIT as int
        } else {
            prob[b]
        } by {
            if front.contains(b) {
                let k = choose|k: int| 0 <= k < front.len() && front[k] == b;
                assert(waiting[k] == b);
            }
            if waiting.contains(b) && b != top {
                let k = choose|k: int| 0 <= k < waiting.len() && waiting[k] == b;
                assert(front[k] == b);
            }
        }
    }
}

/// In the tables that closing a sound state gives, a bucket that was waiting is certain and
/// has no alias, and every other bucket keeps its settled entries.
pub proof fn lemma_finish(s: Ledger)
    requires
        s.sound(),
    ensures
        s.finish().prob.len() == s.scaled.len(),
        s.finish().alias.len() == s.scaled.len(),
        forall|b: int|
            0 <= b < s.scaled.len() ==> if s.waiting(b) {
                #[trigger] s.finish().prob[b] == UNIT && s.finish().alias[b] is None
            } else {
                s.finish().prob[b] == s.prob[b] && s.finish().alias[b] == s.alias[b] && s.settled(b)
            },
{
    lemma_certain(s.prob, s.large);
    lemma_certain(certain(s.prob, s.large), s.small);
    assert forall|b: int| 0 <= b < s.scaled.len() implies if s.waiting(b) {
        #[trigger] s.finish().prob[b] == UNIT && s.finish().alias[b] is None
    } else {
        s.finish().prob[b] == s.prob[b] && s.finish().alias[b] == s.alias[b] && s.settled(b)
    } by {
        assert(certain(certain(s.prob, s.large), s.small)[b] == if s.small.contains(b) {
            UNIT as int
        } else {
            certain(s.prob, s.large)[b]
        });
        assert(certain(s.prob, s.large)[b] == if s.large.contains(b) {
            UNIT as int
        } else {
            s.prob[b]
        });
    }
}

/// The finished tables for non-negative weights: every bucket has a probability between
/// nothing and certainty; a bucket short of certainty has another bucket as its alias, and
/// a certain bucket has none.
pub proof fn lemma_built_sound(weights: Seq<i64>)
    requires
        non_negative(weights),
    ensures
        Ledger::built(weights).prob.len() == weights.len(),
        Ledger::built(weights).alias.len() == weights.len(),
        forall|b: int|
            0 <= b < weights.len() ==> 0 <= #[trigger] Ledger::built(weights).prob[b] <= UNIT,
        forall|b: int|
            0 <= b < weights.len() ==> match #[trigger] Ledger::built(weights).alias[b] {
                Some(a) => 0 <= a < weights.len() && a != b && Ledger::built(weights).prob[b]
                    < UNIT,
                None => Ledger::built(weights).prob[b] == UNIT,
            },
{
    let start = Ledger::start(weights);
    let end = start.pair_off();
    lemma_start_sound(weights);
    lemma_pair_off_sound(start);
    lemma_finish(end);
    assert forall|b: int| 0 <= b < weights.len() implies 0 <= #[trigger] end.finish().prob[b]
        <= UNIT by {
        assert(end.waiting(b) || end.settled(b));
    }
    assert forall|b: int| 0 <= b < weights.len() implies match #[trigger] end.finish().alias[b] {
        Some(a) => 0 <= a < weights.len() && a != b && end.finish().prob[b] < UNIT,
        None => end.finish().prob[b] == UNIT,
    } by {
        assert(end.waiting(b) || end.settled(b));
    }
}

} // verus!
