//! The construction carried out on machine integers, step for step as the model states it.

use vstd::prelude::*;
use crate::model::{certain, heavy, light, scale, Ledger};
use crate::sound::{
    lemma_pair_off_sound, lemma_scale_non_negative, lemma_start_sound, lemma_transfer_sound,
};
use crate::table::{fallbacks, parts};
use crate::weights::{non_negative, UNIT};

verus! {

/// The worklists and tables of a construction under way. Its view is the state of the model
/// that it stands for.
pub(crate) struct Worksheet {
    pub(crate) small: Vec<usize>,
    pub(crate) large: Vec<usize>,
    pub(crate) scaled: Vec<u128>,
    pub(crate) prob: Vec<u64>,
    pub(crate) alias: Vec<Option<usize>>,
}

/// A worklist as mathematical integers.
spec fn buckets(list: Seq<usize>) -> Seq<int> {
    list.map_values(|b: usize| b as int)
}

/// Scaled holdings as mathematical integers.
spec fn holdings(scaled: Seq<u128>) -> Seq<int> {
    scaled.map_values(|h: u128| h as int)
}

impl View for Worksheet {
    type V = Ledger;

    closed spec fn view(&self) -> Ledger {
        Ledger {
            small: buckets(self.small@),
            large: buckets(self.large@),
            scaled: holdings(self.scaled@),
            prob: parts(self.prob@),
            alias: fallbacks(self.alias@),
        }
    }
}

impl Worksheet {
    /// Scales the weights and puts every bucket on the worklist that its holding asks for.
    pub(crate) fn start(weights: &Vec<i64>) -> (sheet: Worksheet)
        requires
            non_negative(weights@),
        ensures
            sheet@ == Ledger::start(weights@),
    {
        let n: usize = weights.len();
        let ghost full = scale(weights@);
        let mut sheet = Worksheet {
            small: Vec::new(),
            large: Vec::new(),
            scaled: Vec::new(),
            prob: Vec::new(),
            alias: Vec::new(),
        };
        let mut i: usize = 0;
        proof {
            lemma_scale_non_negative(weights@);
        }
        while i < n
            invariant
                n == weights.len(),
                0 <= i <= n,
                full == scale(weights@),
                full.len() == n,
                non_negative(weights@),
                forall|k: int| 0 <= k < n ==> #[trigger] full[k] >= 0,
                sheet@.small == light(full, i as int),
                sheet@.large == heavy(full, i as int),
                sheet@.scaled == full.take(i as int),
                sheet.prob@ == Seq::new(i as nat, |k: int| 0u64),
                sheet.alias@ == Seq::new(i as nat, |k: int| None::<usize>),
            decreases n - i,
        {
            let w: i64 = weights[i];
            proof {
                assert(0 <= w * n <= 0x7fff_ffff_ffff_ffff * 0xffff_ffff_ffff_ffff)
                    by (nonlinear_arith)
                    requires
                        0 <= w <= 0x7fff_ffff_ffff_ffff,
                        0 <= n <= 0xffff_ffff_ffff_ffff,
                ;
            }
            let held: u128 = (w as u128) * (n as u128);
            let ghost column = sheet.scaled@;
            sheet.scaled.push(held);
            sheet.prob.push(0);
            sheet.alias.push(None);
            if held < UNIT as u128 {
                sheet.small.push(i);
            } else {
                sheet.large.push(i);
            }
            i = i + 1;
            proof {
                assert(holdings(column).len() == column.len());
                assert forall|k: int| 0 <= k < i implies sheet@.scaled[k] == full[k] by {
                    if k < i - 1 {
                        assert(holdings(column)[k] == full.take(i - 1)[k]);
                    }
                }
            }
        }
        proof {
            let target = Ledger::start(weights@);
            assert(sheet@.scaled =~= target.scaled);
            assert(sheet@.prob =~= target.prob);
            assert(sheet@.alias =~= target.alias);
        }
        sheet
    }

    /// Carries out one transfer.
    pub(crate) fn transfer(&mut self)
        requires
            old(self)@.sound(),
            !old(self)@.spent(),
        ensures
            final(self)@ == old(self)@.transfer(),
    {
        let ghost before = self@;
        proof {
            assert(before.small[before.small.len() - 1] == self.small@.last());
            assert(before.large[before.large.len() - 1] == self.large@.last());
        }
        let l: usize = self.small.pop().unwrap();
        let g: usize = self.large.pop().unwrap();
        let held: u128 = self.scaled[l];
        let rest: u128 = self.scaled[g] - (UNIT as u128 - held);
        self.alias[l] = Some(g);
        self.prob[l] = held as u64;
        self.scaled[g] = rest;
        if rest < UNIT as u128 {
            self.small.push(g);
        } else {
            self.large.push(g);
        }
        proof {
            let after = before.transfer();
            assert(self@.small =~= after.small);
            assert(self@.large =~= after.large);
            assert(self@.scaled =~= after.scaled);
            assert(self@.prob =~= after.prob);
            assert(self@.alias =~= after.alias);
        }
    }

    /// Carries out transfers until one worklist is empty.
    pub(crate) fn pair_off(&mut self)
        requires
            old(self)@.sound(),
        ensures
            final(self)@ == old(self)@.pair_off(),
    {
        while self.small.len() > 0 && self.large.len() > 0
            invariant
                self@.sound(),
                self@.pair_off() == old(self)@.pair_off(),
            decreases self.small.len() + self.large.len(),
        {
            proof {
                lemma_transfer_sound(self@);
            }
            self.transfer();
        }
    }

    /// Makes every bucket still waiting certain and empties both worklists.
    pub(crate) fn finish(&mut self)
        requires
            old(self)@.sound(),
        ensures
            final(self)@ == old(self)@.finish(),
    {
        let ghost before = self@;
        while self.large.len() > 0
            invariant
                self@.small == before.small,
                self@.scaled == before.scaled,
                self@.alias == before.alias,
                self@.prob.len() == before.scaled.len(),
                forall|k: int|
                    0 <= k < self@.large.len() ==> 0 <= #[trigger] self@.large[k]
                        < before.scaled.len(),
                certain(self@.prob, self@.large) == certain(before.prob, before.large),
            decreases self.large.len(),
        {
            let ghost list = self@.large;
            let ghost column = self@.prob;
            let g: usize = self.large.pop().unwrap();
            self.prob[g] = UNIT;
            proof {
                assert(self@.large =~= list.drop_last());
                assert(self@.prob =~= column.update(g as int, UNIT as int));
            }
        }
        let ghost midway = self@.prob;
        while self.small.len() > 0
            invariant
                self@.large.len() == 0,
                self@.scaled == before.scaled,
                self@.alias == before.alias,
                self@.prob.len() == before.scaled.len(),
                forall|k: int|
                    0 <= k < self@.small.len() ==> 0 <= #[trigger] self@.small[k]
                        < before.scaled.len(),
                midway == certain(before.prob, before.large),
                certain(self@.prob, self@.small) == certain(midway, before.small),
            decreases self.small.len(),
        {
            let ghost list = self@.small;
            let ghost column = self@.prob;
            let l: usize = self.small.pop().unwrap();
            self.prob[l] = UNIT;
            proof {
                assert(self@.small =~= list.drop_last());
                assert(self@.prob =~= column.update(l as int, UNIT as int));
            }
        }
        proof {
            let after = before.finish();
            assert(self@.small =~= after.small);
            assert(self@.large =~= after.large);
        }
    }
}

/// Builds the alias and probability columns for `weights`.
pub(crate) fn build(weights: &Vec<i64>) -> (columns: (Vec<Option<usize>>, Vec<u64>))
    requires
        non_negative(weights@),
    ensures
        fallbacks(columns.0@) == Ledger::built(weights@).alias,
        parts(columns.1@) == Ledger::built(weights@).prob,
{
    let mut sheet = Worksheet::start(weights);
    proof {
        lemma_start_sound(weights@);
        lemma_pair_off_sound(Ledger::start(weights@));
    }
    sheet.pair_off();
    sheet.finish();
    (sheet.alias, sheet.prob)
}

} // verus!
