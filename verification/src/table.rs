//! The alias table and its construction.

use vstd::prelude::*;
use crate::model::Ledger;
use crate::mass::lemma_built_mass;
use crate::sound::lemma_built_sound;
use crate::weights::{check_distribution, is_distribution, total, DEFAULT_TOLERANCE, UNIT};
use crate::worksheet::build;

verus! {

/// Why a table could not be built.
#[derive(Debug, Clone, Copy, PartialEq, Eq, Structural)]
pub enum ConstructionError {
    /// There are not as many weights as elements.
    LengthMismatch,
    /// A weight is negative, or the weights do not sum to one within the tolerance.
    InvalidDistribution,
    /// There is no element to sample.
    EmptyInput,
}

/// An alias table over elements of type `T`.
///
/// Bucket `i` belongs to `elements[i]`. A draw that lands in bucket `i` keeps that element
/// with probability `prob[i]` out of [`UNIT`] and otherwise takes the element of bucket
/// `alias[i]`. Buckets are told apart by their position, so equal elements may occur more
/// than once, and nothing is asked of `T` but, for drawing, that it can be copied out.
///
/// A table is made by [`VoseAlias::new`] or [`VoseAlias::with_tolerance`] and in no other
/// way. Its columns can be read, and changed at the owner's risk: drawing from a table that
/// is no longer well formed gives an error, never a fault.
#[derive(Debug, Clone)]
pub struct VoseAlias<T> {
    /// The elements to draw from, one to a bucket.
    pub elements: Vec<T>,
    /// For each bucket, the bucket whose element is drawn when the coin turns the bucket's
    /// own element down; none where the bucket is certain.
    pub alias: Vec<Option<usize>>,
    /// For each bucket, the probability in parts of [`UNIT`] that a draw which lands in the
    /// bucket keeps the bucket's own element.
    pub prob: Vec<u64>,
    /// Leaves [`VoseAlias::new`] and [`VoseAlias::with_tolerance`] as the only ways to make
    /// a table.
    pub(crate) _private: Seal,
}

/// The mark that a table carries. Only this crate can make one.
#[derive(Debug, Clone, Copy)]
pub(crate) struct Seal;

/// An alias table as a mathematical value.
pub struct Table<T> {
    /// The element of each bucket.
    pub elements: Seq<T>,
    /// The alias of each bucket, where it has one.
    pub alias: Seq<Option<int>>,
    /// The probability of each bucket, in parts of [`UNIT`].
    pub prob: Seq<int>,
}

/// Acceptance probabilities as mathematical integers.
pub open spec fn parts(prob: Seq<u64>) -> Seq<int> {
    prob.map_values(|p: u64| p as int)
}

/// One alias entry as a mathematical integer, where there is one.
pub open spec fn fallback(entry: Option<usize>) -> Option<int> {
    match entry {
        Some(a) => Some(a as int),
        None => None,
    }
}

/// Alias entries as mathematical integers.
pub open spec fn fallbacks(alias: Seq<Option<usize>>) -> Seq<Option<int>> {
    alias.map_values(|entry: Option<usize>| fallback(entry))
}

impl<T> View for VoseAlias<T> {
    type V = Table<T>;

    open(crate) spec fn view(&self) -> Table<T> {
        Table { elements: self.elements@, alias: fallbacks(self.alias@), prob: parts(self.prob@) }
    }
}

impl<T> Table<T> {
    /// The table has a bucket, every bucket has both entries, no probability exceeds
    /// certainty, and a bucket short of certainty has another bucket as its alias.
    pub open spec fn well_formed(self) -> bool {
        let n = self.elements.len();
        &&& n > 0
        &&& self.alias.len() == n
        &&& self.prob.len() == n
        &&& forall|b: int| 0 <= b < n ==> 0 <= #[trigger] self.prob[b] <= UNIT
        &&& forall|b: int|
            0 <= b < n && #[trigger] self.prob[b] < UNIT ==> (self.alias[b] matches Some(a) && 0
                <= a < n && a != b)
    }

    /// What all buckets give to the element of bucket `to`, in parts of [`UNIT`]. A fair
    /// die over the `n` buckets and a fair coin draw that bucket with probability
    /// `mass(to) / (n * UNIT)`.
    pub open spec fn mass(self, to: int) -> int {
        crate::mass::mass(self.prob, self.alias, to)
    }

    /// The table gives every element its weight, as nearly as the sum of the weights is
    /// one: the mass of each bucket is `n` times its weight where the weights sum to
    /// [`UNIT`]; where they sum to more, it falls short of that by no more than `n` times
    /// what the sum has too much; where they sum to less, it exceeds that by no more than
    /// `n` times what the sum lacks.
    pub open spec fn reproduces(self, weights: Seq<i64>) -> bool {
        let n = weights.len();
        let surplus = n * (total(weights) - UNIT);
        forall|to: int|
            0 <= to < n ==> {
                let given = #[trigger] self.mass(to);
                let due = n * weights[to];
                if surplus >= 0 {
                    due - surplus <= given <= due
                } else {
                    due <= given <= due - surplus
                }
            }
    }

    /// The table that construction makes of `elements` and `weights`.
    pub open spec fn built(elements: Seq<T>, weights: Seq<i64>) -> Table<T> {
        Table {
            elements,
            alias: Ledger::built(weights).alias,
            prob: Ledger::built(weights).prob,
        }
    }
}

/// Construction accepts the input: one weight for each element, at least one element, and
/// weights that describe a distribution within `tolerance`.
pub open spec fn acceptable<T>(elements: Seq<T>, weights: Seq<i64>, tolerance: int) -> bool {
    &&& elements.len() == weights.len()
    &&& weights.len() > 0
    &&& is_distribution(weights, tolerance)
}

/// `made` is what construction answers to `elements`, `weights` and `tolerance`: the table
/// built from them where the input is acceptable, and otherwise the first fault that the
/// input has, differing lengths before an empty input before weights that are no
/// distribution.
pub open spec fn constructed<T>(
    made: Result<VoseAlias<T>, ConstructionError>,
    elements: Seq<T>,
    weights: Seq<i64>,
    tolerance: int,
) -> bool {
    match made {
        Ok(table) => acceptable(elements, weights, tolerance) && table@ == Table::built(
            elements,
            weights,
        ),
        Err(ConstructionError::LengthMismatch) => elements.len() != weights.len(),
        Err(ConstructionError::EmptyInput) => elements.len() == weights.len() && weights.len()
            == 0,
        Err(ConstructionError::InvalidDistribution) => elements.len() == weights.len()
            && weights.len() > 0 && !is_distribution(weights, tolerance),
    }
}

/// A table built from acceptable input is well formed and reproduces the weights.
pub proof fn lemma_built_table<T>(elements: Seq<T>, weights: Seq<i64>, tolerance: int)
    requires
        acceptable(elements, weights, tolerance),
    ensures
        Table::built(elements, weights).well_formed(),
        Table::built(elements, weights).reproduces(weights),
{
    lemma_built_sound(weights);
    let table = Table::built(elements, weights);
    let n = weights.len() as int;
    let sum = total(weights);
    assert forall|b: int| 0 <= b < n && #[trigger] table.prob[b] < UNIT implies (
    table.alias[b] matches Some(a) && 0 <= a < n && a != b) by {
        assert(Ledger::built(weights).alias[b] is Some);
    }
    assert((sum >= UNIT <==> n * (sum - UNIT) >= 0) && (sum == UNIT <==> n * (sum - UNIT) == 0))
        by (nonlinear_arith)
        requires
            n > 0,
    ;
    assert forall|to: int| 0 <= to < n implies {
        let given = #[trigger] table.mass(to);
        let due = n * weights[to];
        let surplus = n * (sum - UNIT);
        if surplus >= 0 {
            due - surplus <= given <= due
        } else {
            due <= given <= due - surplus
        }
    } by {
        lemma_built_mass(weights, to);
    }
}

impl<T> VoseAlias<T> {
    /// Builds the table for `element_vector`, where `probability_vector[i]` is the
    /// probability of `element_vector[i]` in parts of [`UNIT`]. The weights must sum to
    /// `UNIT` within [`DEFAULT_TOLERANCE`].
    pub fn new(element_vector: Vec<T>, probability_vector: Vec<i64>) -> (made: Result<
        VoseAlias<T>,
        ConstructionError,
    >)
        ensures
            constructed(made, element_vector@, probability_vector@, DEFAULT_TOLERANCE as int),
            made matches Ok(table) ==> table@.well_formed() && table@.reproduces(
                probability_vector@,
            ),
    {
        VoseAlias::with_tolerance(element_vector, probability_vector, DEFAULT_TOLERANCE)
    }

    /// Builds the table for `element_vector`, where `probability_vector[i]` is the
    /// probability of `element_vector[i]` in parts of [`UNIT`]. The weights must sum to
    /// `UNIT` within `tolerance`, itself in parts of `UNIT`.
    ///
    /// The input is judged before any table work: differing lengths are reported first, then
    /// an empty input, then weights that are no distribution.
    pub fn with_tolerance(
        element_vector: Vec<T>,
        probability_vector: Vec<i64>,
        tolerance: u64,
    ) -> (made: Result<VoseAlias<T>, ConstructionError>)
        ensures
            constructed(made, element_vector@, probability_vector@, tolerance as int),
            made matches Ok(table) ==> table@.well_formed() && table@.reproduces(
                probability_vector@,
            ),
    {
        if element_vector.len() != probability_vector.len() {
            return Err(ConstructionError::LengthMismatch);
        }
        if probability_vector.len() == 0 {
            return Err(ConstructionError::EmptyInput);
        }
        if !check_distribution(&probability_vector, tolerance) {
            return Err(ConstructionError::InvalidDistribution);
        }
        let (alias, prob) = build(&probability_vector);
        let table = VoseAlias { elements: element_vector, alias, prob, _private: Seal };
        proof {
            lemma_built_table(element_vector@, probability_vector@, tolerance as int);
        }
        Ok(table)
    }
}

} // verus!
