//! Properties that hold across the operators of the algorithm.
use vstd::prelude::*;
use crate::float_bits::{is_nan, lemma_and_not_nan, lemma_clamp_within, within};
use crate::individual::{genes_within, Bounds, Individual};
use crate::operators::{crossed, flipped, roulette, some_hit};

verus! {

/// Crossover keeps genes in bounds: where the parents' first `n` genes lie in
/// `[min, max]`, so does every gene of the child.
pub proof fn lemma_crossover_within(xs: Seq<u64>, ys: Seq<u64>, n: nat, b: Bounds)
    requires
        b.wf(),
        n <= xs.len(),
        n <= ys.len(),
        genes_within(xs, b),
        genes_within(ys, b),
    ensures
        genes_within(crossed(xs, ys, n, b.min, b.max), b),
{
    assert forall|i: int| 0 <= i < n implies within(
        #[trigger] crossed(xs, ys, n, b.min, b.max)[i],
        b.min,
        b.max,
    ) by {
        assert(within(xs[i], b.min, b.max));
        assert(within(ys[i], b.min, b.max));
        lemma_and_not_nan(xs[i], ys[i]);
        lemma_clamp_within(xs[i] & ys[i], b.min, b.max);
    }
}

/// Mutation keeps genes in bounds wherever the flipped pattern is a number:
/// clamping cannot move a NaN, which a flip of an exponent bit can produce.
pub proof fn lemma_mutation_within(s: Seq<u64>, pos: u64, b: Bounds)
    requires
        b.wf(),
        pos < 64,
    ensures
        forall|i: int|
            0 <= i < s.len() && !is_nan(#[trigger] s[i] ^ (1u64 << pos)) ==> within(
                flipped(s, pos, b.min, b.max)[i],
                b.min,
                b.max,
            ),
{
    assert forall|i: int| 0 <= i < s.len() && !is_nan(#[trigger] s[i] ^ (1u64 << pos)) implies within(
        flipped(s, pos, b.min, b.max)[i],
        b.min,
        b.max,
    ) by {
        lemma_clamp_within(s[i] ^ (1u64 << pos), b.min, b.max);
    }
}

/// Replacing the worst half keeps the best half: after `replace_worst` with
/// `pop.len() / 2` children, the first `pop.len() / 2` individuals of the
/// ranked population are unchanged and in place.
pub proof fn lemma_replacement_keeps_top_half(pop: Seq<Individual>, children: Seq<Individual>)
    requires
        children.len() == pop.len() / 2,
    ensures
        forall|i: int|
            0 <= i < pop.len() / 2 ==> #[trigger] (pop.take(pop.len() - children.len())
                + children.reverse())[i] == pop[i],
{
    assert forall|i: int| 0 <= i < pop.len() / 2 implies #[trigger] (pop.take(
        pop.len() - children.len(),
    ) + children.reverse())[i] == pop[i] by {
        assert(i < pop.len() - children.len());
    }
}

/// Crossover draws nothing at random: parents with the same chromosomes give
/// the same child, whatever their fitness.
pub proof fn lemma_crossover_deterministic(
    a1: Individual,
    a2: Individual,
    b1: Individual,
    b2: Individual,
    n: nat,
    lo: u64,
    hi: u64,
)
    requires
        a1.chromosome@ == b1.chromosome@,
        a2.chromosome@ == b2.chromosome@,
    ensures
        crossed(a1.chromosome@, a2.chromosome@, n, lo, hi) == crossed(
            b1.chromosome@,
            b2.chromosome@,
            n,
            lo,
            hi,
        ),
{
}

/// Where every fitness is zero, so every selection threshold is zero, no draw
/// passes a threshold and selection falls back to its uniform choice, which
/// is always a member of the population.
pub proof fn lemma_zero_odds_fall_back(odds: Seq<u64>, d: u64, fallback: int)
    requires
        forall|i: int| 0 <= i < odds.len() ==> odds[i] == 0,
    ensures
        !some_hit(odds, d),
        forall|r: int| #[trigger] roulette(odds, d, fallback, r) <==> r == fallback,
{
}

} // verus!
