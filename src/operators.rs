//! Reproduction operators: selection, bitwise crossover and bit-flip mutation.
use vstd::prelude::*;
use crate::float_bits::{clamp, clamp_gene};
use crate::individual::Individual;
use crate::random::random_range;

verus! {

/// A uniform draw from `[0, 1)` is held as the integer `d` of the fraction
/// `d / UNIT`, with `d` in `[0, UNIT)`: the 2^53 equally likely values.
pub const UNIT: u64 = 0x20_0000_0000_0000;

/// Draws up to three quarters of `UNIT` pick a low mantissa bit.
pub const FINE_LIMIT: u64 = 0x18_0000_0000_0000;

/// Draws up to this one (nine tenths, as the nearest double has it, times
/// `UNIT`) pick a high mantissa bit; larger ones pick a sign or exponent bit.
pub const MEDIUM_LIMIT: u64 = 0x1C_CCCC_CCCC_CCCD;

/// The half-open range of bit positions that a mutation draw `d` chooses from:
/// `[0, 32)`, `[31, 48)` or `[47, 64)`.
pub open spec fn bit_band(d: u64) -> (u64, u64) {
    if d <= FINE_LIMIT {
        (0, 32)
    } else if d <= MEDIUM_LIMIT {
        (31, 48)
    } else {
        (47, 64)
    }
}

/// The bit positions a mutation draw `d` chooses from.
pub fn mutation_band(d: u64) -> (r: (u64, u64))
    ensures
        r == bit_band(d),
        r.0 < r.1 <= 64,
{
    if d <= FINE_LIMIT {
        (0, 32)
    } else if d <= MEDIUM_LIMIT {
        (31, 48)
    } else {
        (47, 64)
    }
}

/// The child's genes: for each of the first `n` positions, the bitwise AND of
/// the parents' patterns, clamped into `[lo, hi]`.
pub open spec fn crossed(xs: Seq<u64>, ys: Seq<u64>, n: nat, lo: u64, hi: u64) -> Seq<u64> {
    Seq::new(n, |i: int| clamp(xs[i] & ys[i], lo, hi))
}

/// Recombines two parents into an unevaluated child, gene by gene, by the
/// bitwise AND of their patterns followed by clamping.
pub fn crossover(
    par1: &Individual,
    par2: &Individual,
    chromosome_size: usize,
    min_val: u64,
    max_val: u64,
) -> (r: Individual)
    requires
        chromosome_size <= par1.chromosome.len(),
        chromosome_size <= par2.chromosome.len(),
    ensures
        r.chromosome@ == crossed(
            par1.chromosome@,
            par2.chromosome@,
            chromosome_size as nat,
            min_val,
            max_val,
        ),
        r.fitness == 0,
{
    let mut genes: Vec<u64> = Vec::with_capacity(chromosome_size);
    let mut i: usize = 0;
    while i < chromosome_size
        invariant
            i <= chromosome_size,
            chromosome_size <= par1.chromosome.len(),
            chromosome_size <= par2.chromosome.len(),
            genes@ =~= crossed(par1.chromosome@, par2.chromosome@, i as nat, min_val, max_val),
        decreases chromosome_size - i,
    {
        let g = clamp_gene(par1.chromosome[i] & par2.chromosome[i], min_val, max_val);
        genes.push(g);
        i += 1;
    }
    Individual::new(genes)
}

/// The genes after flipping bit `pos` of each and clamping into `[lo, hi]`.
pub open spec fn flipped(s: Seq<u64>, pos: u64, lo: u64, hi: u64) -> Seq<u64> {
    s.map_values(|g: u64| clamp(g ^ (1u64 << pos), lo, hi))
}

/// Flips bit `pos` of every gene and clamps each result; the fitness is left
/// as it was until the individual is evaluated again.
pub fn flip_bit(ind: &mut Individual, pos: u64, min_val: u64, max_val: u64)
    requires
        pos < 64,
    ensures
        final(ind).chromosome@ == flipped(old(ind).chromosome@, pos, min_val, max_val),
        final(ind).fitness == old(ind).fitness,
{
    let mask: u64 = 1u64 << pos;
    let n = ind.chromosome.len();
    let mut i: usize = 0;
    while i < n
        invariant
            i <= n,
            n == old(ind).chromosome.len(),
            ind.chromosome.len() == n,
            ind.fitness == old(ind).fitness,
            mask == 1u64 << pos,
            forall|j: int|
                0 <= j < i ==> ind.chromosome@[j] == clamp(
                    old(ind).chromosome@[j] ^ mask,
                    min_val,
                    max_val,
                ),
            forall|j: int| i <= j < n ==> ind.chromosome@[j] == old(ind).chromosome@[j],
        decreases n - i,
    {
        let g = clamp_gene(ind.chromosome[i] ^ mask, min_val, max_val);
        ind.chromosome.set(i, g);
        i += 1;
    }
    assert(ind.chromosome@ =~= flipped(old(ind).chromosome@, pos, min_val, max_val));
}

/// Mutates one individual: a draw chooses the band of bit positions, a second
/// draw the position in it, and that bit is flipped in every gene.
pub fn mutate(ind: &mut Individual, min_val: u64, max_val: u64)
    ensures
        exists|pos: u64|
            pos < 64 && final(ind).chromosome@ == flipped(
                old(ind).chromosome@,
                pos,
                min_val,
                max_val,
            ),
        exists|d: u64, pos: u64|
            #![trigger bit_band(d), flipped(old(ind).chromosome@, pos, min_val, max_val)]
            d < UNIT && bit_band(d).0 <= pos < bit_band(d).1 && final(ind).chromosome@ == flipped(
                old(ind).chromosome@,
                pos,
                min_val,
                max_val,
            ),
        final(ind).fitness == old(ind).fitness,
{
    let d = random_range(0, UNIT);
    let (lo, hi) = mutation_band(d);
    let pos = random_range(lo, hi);
    flip_bit(ind, pos, min_val, max_val);
    assert(d < UNIT && bit_band(d).0 <= pos < bit_band(d).1);
}

/// The draw `d` passes the selection test of some individual.
pub open spec fn some_hit(odds: Seq<u64>, d: u64) -> bool {
    exists|i: int| 0 <= i < odds.len() && d < odds[i]
}

/// `r` is the roulette choice for draw `d`: the first index whose threshold
/// exceeds `d`, or `fallback` where there is none.
pub open spec fn roulette(odds: Seq<u64>, d: u64, fallback: int, r: int) -> bool {
    &&& some_hit(odds, d) ==> 0 <= r < odds.len() && d < odds[r] && forall|j: int|
        0 <= j < r ==> !(d < #[trigger] odds[j])
    &&& !some_hit(odds, d) ==> r == fallback
}

/// Roulette choice for one draw: the first individual whose selection
/// threshold `odds[i]` exceeds the draw `d`, or `fallback` where none does.
///
/// Each individual is tested against its own share of the total fitness, not
/// against a running total.
pub fn pick(odds: &Vec<u64>, d: u64, fallback: usize) -> (r: usize)
    requires
        fallback < odds.len(),
    ensures
        r < odds.len(),
        roulette(odds@, d, fallback as int, r as int),
{
    let mut i: usize = 0;
    while i < odds.len()
        invariant
            i <= odds.len(),
            forall|j: int| 0 <= j < i ==> !(d < #[trigger] odds@[j]),
        decreases odds.len() - i,
    {
        if d < odds[i] {
            return i;
        }
        i += 1;
    }
    fallback
}

/// Selects one individual by roulette: `odds[i]` is the threshold below which
/// a draw from `[0, UNIT)` picks individual `i` (the draw, as a fraction of
/// `UNIT`, is below its fitness over the sum of fitnesses). Where no threshold
/// is passed, an individual is chosen uniformly at random.
pub fn select(odds: &Vec<u64>) -> (r: usize)
    requires
        odds.len() > 0,
    ensures
        r < odds.len(),
        exists|d: u64, fallback: int|
            d < UNIT && 0 <= fallback < odds.len() && #[trigger] roulette(
                odds@,
                d,
                fallback,
                r as int,
            ),
        forall|i: int| 0 <= i < odds.len() && odds@[i] >= UNIT ==> r <= i,
{
    let d = random_range(0, UNIT);
    let fallback = random_range(0, odds.len() as u64) as usize;
    pick(odds, d, fallback)
}

} // verus!
