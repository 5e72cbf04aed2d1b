//! Drawing from a table: the roll of the die, the flip of the coin, and the choice that the
//! two make.
//!
//! The coin has [`UNIT`] faces, numbered from one, and is as fine as the probabilities
//! themselves. A bucket keeps its own element when the coin shows no more than the bucket's
//! probability, so it keeps it on exactly as many faces as its probability has parts: a
//! certain bucket on every face, a bucket without probability on none.

use vstd::prelude::*;
use vstd::set_lib::{lemma_int_range, set_int_range};
use rand::rngs::StdRng;
use crate::mass::{mass_before, share};
use crate::random::draw_below;
use crate::table::{Table, VoseAlias};
use crate::weights::UNIT;

verus! {

/// Why a draw gave no element. None of these arises on a table that construction made.
#[derive(Debug, Clone, Copy, PartialEq, Eq, Structural)]
pub enum SamplingError {
    /// The table has no bucket to roll the die over.
    EmptyTable,
    /// The die names no bucket of the table.
    NoSuchBucket,
    /// The bucket has no probability entry.
    MissingProbability,
    /// The coin turned the bucket's own element down, and the bucket has no alias within
    /// the table.
    MissingAlias,
}

impl<T> Table<T> {
    /// Bucket `die` keeps its own element on the face `coin`.
    pub open spec fn keeps(self, die: int, coin: int) -> bool {
        coin <= self.prob[die]
    }

    /// The bucket whose element `die` and `coin` select in a well-formed table.
    pub open spec fn chosen(self, die: int, coin: int) -> int {
        if self.keeps(die, coin) {
            die
        } else {
            self.alias[die].unwrap()
        }
    }

    /// The element that `die` and `coin` select, or why there is none.
    pub open spec fn select(self, die: int, coin: int) -> Result<T, SamplingError> {
        if !(0 <= die < self.elements.len()) {
            Err(SamplingError::NoSuchBucket)
        } else if die >= self.prob.len() {
            Err(SamplingError::MissingProbability)
        } else if self.keeps(die, coin) {
            Ok(self.elements[die])
        } else if die >= self.alias.len() {
            Err(SamplingError::MissingAlias)
        } else {
            match self.alias[die] {
                Some(a) if 0 <= a < self.elements.len() => Ok(self.elements[a]),
                _ => Err(SamplingError::MissingAlias),
            }
        }
    }

    /// The faces of the coin on which the die `from` selects bucket `to`.
    pub open spec fn faces(self, from: int, to: int) -> Set<int> {
        Set::new(|coin: int| 1 <= coin <= UNIT && self.chosen(from, coin) == to)
    }

    /// How many outcomes of die and coin, with the die before `upto`, select bucket `to`.
    pub open spec fn outcomes_before(self, to: int, upto: int) -> int
        decreases upto,
    {
        if upto <= 0 {
            0
        } else {
            self.outcomes_before(to, upto - 1) + self.faces(upto - 1, to).len()
        }
    }

    /// How many of the `n * UNIT` outcomes of die and coin select bucket `to`.
    pub open spec fn outcomes(self, to: int) -> int {
        self.outcomes_before(to, self.elements.len() as int)
    }
}

/// On a well-formed table every bucket and every face of the coin select an element: that
/// of the bucket where it keeps it, that of its alias where it does not.
pub proof fn lemma_select_well_formed<T>(table: Table<T>, die: int, coin: int)
    requires
        table.well_formed(),
        0 <= die < table.elements.len(),
        0 <= coin <= UNIT,
    ensures
        0 <= table.chosen(die, coin) < table.elements.len(),
        table.select(die, coin) == Ok::<T, SamplingError>(
            table.elements[table.chosen(die, coin)],
        ),
{
}

/// On a well-formed table the die `from` selects bucket `to` on exactly as many faces of
/// the coin as bucket `from` gives parts to bucket `to`. With a fair die and a fair coin,
/// bucket `to` is therefore drawn with probability `mass(to) / (n * UNIT)`.
pub proof fn lemma_faces<T>(table: Table<T>, from: int, to: int)
    requires
        table.well_formed(),
        0 <= from < table.elements.len(),
    ensures
        table.faces(from, to).finite(),
        table.faces(from, to).len() == share(table.prob, table.alias, from, to),
{
    let p = table.prob[from];
    let faces = table.faces(from, to);
    if from == to {
        assert(faces =~= set_int_range(1, p + 1)) by {
            assert forall|coin: int| faces.contains(coin) <==> 1 <= coin < p + 1 by {
                assert(p < coin <= UNIT ==> table.prob[from] < UNIT);
            }
        }
        lemma_int_range(1, p + 1);
    } else if table.alias[from] == Some(to) {
        assert(faces =~= set_int_range(p + 1, UNIT + 1));
        lemma_int_range(p + 1, UNIT + 1);
    } else {
        assert(faces =~= Set::<int>::empty()) by {
            assert forall|coin: int| !faces.contains(coin) by {
                assert(p < coin <= UNIT ==> table.prob[from] < UNIT);
            }
        }
    }
}

/// On a well-formed table bucket `to` is selected by as many outcomes of die and coin as it
/// has mass.
pub proof fn lemma_outcomes<T>(table: Table<T>, to: int, upto: int)
    requires
        table.well_formed(),
        0 <= upto <= table.elements.len(),
    ensures
        table.outcomes_before(to, upto) == mass_before(table.prob, table.alias, to, upto),
        upto == table.elements.len() ==> table.outcomes(to) == table.mass(to),
    decreases upto,
{
    if upto > 0 {
        lemma_outcomes(table, to, upto - 1);
        lemma_faces(table, upto - 1, to);
    }
}

impl<T> VoseAlias<T> {
    /// Rolls the die and flips the coin: a bucket of the table and a face of the coin, both
    /// drawn from `rng`.
    pub fn roll_die_and_flip_coin(&self, rng: &mut StdRng) -> (rolled: Result<
        (usize, u64),
        SamplingError,
    >)
        ensures
            match rolled {
                Ok((die, coin)) => die < self@.elements.len() && 1 <= coin <= UNIT,
                Err(error) => error == SamplingError::EmptyTable && self@.elements.len() == 0,
            },
    {
        let n: usize = self.elements.len();
        if n == 0 {
            return Err(SamplingError::EmptyTable);
        }
        let die: usize = draw_below(rng, n);
        let face: usize = draw_below(rng, UNIT as usize);
        Ok((die, face as u64 + 1))
    }
}

impl<T: Copy> VoseAlias<T> {
    /// Draws one element: rolls the die over the buckets, flips the coin, and returns what
    /// the two select.
    pub fn sample(&self, rng: &mut StdRng) -> (drawn: Result<T, SamplingError>)
        ensures
            self@.elements.len() == 0 ==> drawn == Err::<T, SamplingError>(
                SamplingError::EmptyTable,
            ),
            self@.elements.len() > 0 ==> exists|die: int, coin: int|
                0 <= die < self@.elements.len() && 1 <= coin <= UNIT && drawn
                    == #[trigger] self@.select(die, coin),
            self@.well_formed() ==> drawn is Ok,
            drawn matches Ok(element) ==> self@.elements.contains(element),
    {
        match self.roll_die_and_flip_coin(rng) {
            Ok((die, coin)) => {
                let drawn = self.select_element(die, coin);
                proof {
                    if self@.well_formed() {
                        lemma_select_well_formed(self@, die as int, coin as int);
                    }
                }
                drawn
            },
            Err(error) => Err(error),
        }
    }

    /// Returns the element that `die` and `coin` select: that of bucket `die` where the
    /// coin shows no more than the bucket's probability, that of the bucket's alias
    /// otherwise.
    pub fn select_element(&self, die: usize, coin: u64) -> (chosen: Result<T, SamplingError>)
        ensures
            chosen == self@.select(die as int, coin as int),
    {
        if die >= self.elements.len() {
            return Err(SamplingError::NoSuchBucket);
        }
        if die >= self.prob.len() {
            return Err(SamplingError::MissingProbability);
        }
        if coin <= self.prob[die] {
            return Ok(self.elements[die]);
        }
        if die >= self.alias.len() {
            return Err(SamplingError::MissingAlias);
        }
        match self.alias[die] {
            Some(a) => {
                if a < self.elements.len() {
                    Ok(self.elements[a])
                } else {
                    Err(SamplingError::MissingAlias)
                }
            },
            None => Err(SamplingError::MissingAlias),
        }
    }
}

} // verus!
