//! What holds between constructions.

use vstd::prelude::*;
use vstd::std_specs::cmp::PartialEqSpec;
use crate::mass::lemma_built_mass;
use crate::model::Ledger;
use crate::sampling::lemma_outcomes;
use crate::table::{
    acceptable, constructed, lemma_built_table, ConstructionError, Table, VoseAlias,
};
use crate::weights::{total, UNIT};

verus! {

/// Construction is repeatable: two constructions from the same elements, weights and
/// tolerance either both fail, for the same reason, or both succeed, with the same
/// elements, aliases and probabilities.
pub proof fn lemma_construction_repeatable<T>(
    first: Result<VoseAlias<T>, ConstructionError>,
    second: Result<VoseAlias<T>, ConstructionError>,
    elements: Seq<T>,
    weights: Seq<i64>,
    tolerance: int,
)
    requires
        constructed(first, elements, weights, tolerance),
        constructed(second, elements, weights, tolerance),
    ensures
        match (first, second) {
            (Ok(one), Ok(other)) => one@ == other@,
            (Err(one), Err(other)) => one == other,
            _ => false,
        },
{
}

/// Two tables built from the same elements and weights are equal.
pub proof fn lemma_same_input_equal<T>(
    first: VoseAlias<T>,
    second: VoseAlias<T>,
    elements: Seq<T>,
    weights: Seq<i64>,
    tolerance: int,
)
    requires
        constructed(Ok(first), elements, weights, tolerance),
        constructed(Ok(second), elements, weights, tolerance),
    ensures
        first.eq_spec(&second),
{
}

/// Two tables built from weights that lead to different alias assignments are unequal.
pub proof fn lemma_different_aliases_unequal<T>(
    first: VoseAlias<T>,
    first_elements: Seq<T>,
    first_weights: Seq<i64>,
    first_tolerance: int,
    second: VoseAlias<T>,
    second_elements: Seq<T>,
    second_weights: Seq<i64>,
    second_tolerance: int,
)
    requires
        constructed(Ok(first), first_elements, first_weights, first_tolerance),
        constructed(Ok(second), second_elements, second_weights, second_tolerance),
        Ledger::built(first_weights).alias != Ledger::built(second_weights).alias,
    ensures
        !first.eq_spec(&second),
{
}

/// A table built from weights that sum to [`UNIT`] gives every element exactly its weight:
/// the mass of a bucket is `n` times its weight.
pub proof fn lemma_table_exact<T>(elements: Seq<T>, weights: Seq<i64>, to: int)
    requires
        acceptable(elements, weights, 0),
        0 <= to < weights.len(),
    ensures
        Table::built(elements, weights).mass(to) == weights.len() * weights[to],
{
    lemma_built_mass(weights, to);
}

/// A table built from weights that sum to [`UNIT`] within `tolerance` gives every element
/// its weight within `tolerance`: the mass of a bucket lies no further than `n * tolerance`
/// from `n` times its weight.
pub proof fn lemma_table_within_tolerance<T>(
    elements: Seq<T>,
    weights: Seq<i64>,
    tolerance: int,
    to: int,
)
    requires
        acceptable(elements, weights, tolerance),
        0 <= to < weights.len(),
    ensures
        weights.len() * weights[to] - weights.len() * tolerance <= Table::built(
            elements,
            weights,
        ).mass(to) <= weights.len() * weights[to] + weights.len() * tolerance,
{
    lemma_built_mass(weights, to);
    let n = weights.len() as int;
    let sum = total(weights);
    assert(-(n * tolerance) <= n * (sum - UNIT) <= n * tolerance) by (nonlinear_arith)
        requires
            n > 0,
            UNIT - tolerance <= sum <= UNIT + tolerance,
    ;
}

/// A table built from weights that sum to [`UNIT`] draws every bucket
/// with exactly its weight as probability: of the `n * UNIT` outcomes of die and coin, `n`
/// times the weight select it.
pub proof fn lemma_draws_exact<T>(elements: Seq<T>, weights: Seq<i64>, to: int)
    requires
        acceptable(elements, weights, 0),
        0 <= to < weights.len(),
    ensures
        Table::built(elements, weights).outcomes(to) == weights.len() * weights[to],
{
    lemma_built_table(elements, weights, 0);
    lemma_outcomes(Table::built(elements, weights), to, weights.len() as int);
    lemma_table_exact(elements, weights, to);
}

/// A table built from weights that sum to [`UNIT`] within `tolerance`
/// draws every bucket with its weight as probability, within `tolerance`: of the `n * UNIT`
/// outcomes of die and coin, those that select it number `n` times the weight, give or take
/// `n * tolerance`.
pub proof fn lemma_draws_within_tolerance<T>(
    elements: Seq<T>,
    weights: Seq<i64>,
    tolerance: int,
    to: int,
)
    requires
        acceptable(elements, weights, tolerance),
        0 <= to < weights.len(),
    ensures
        weights.len() * weights[to] - weights.len() * tolerance <= Table::built(
            elements,
            weights,
        ).outcomes(to) <= weights.len() * weights[to] + weights.len() * tolerance,
{
    lemma_built_table(elements, weights, tolerance);
    lemma_outcomes(Table::built(elements, weights), to, weights.len() as int);
    lemma_table_within_tolerance(elements, weights, tolerance, to);
}

} // verus!
