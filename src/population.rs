//! Operations on a whole population: ranking and one generation of breeding.
use vstd::prelude::*;
use crate::float_bits::{fitness_rank, rank_key};
use crate::individual::Individual;
use crate::operators::{crossed, crossover, flipped, mutate, select, UNIT};
use crate::random::random_range;

verus! {

/// The individuals of `s` whose fitness ranks as `k`, in their order in `s`.
pub open spec fn with_rank(s: Seq<Individual>, k: int) -> Seq<Individual> {
    s.filter(|x: Individual| fitness_rank(x.fitness) == k)
}

/// Fitness never increases along `s` (NaN ranks lowest).
pub open spec fn ranked(s: Seq<Individual>) -> bool {
    forall|i: int, j: int|
        0 <= i < j < s.len() ==> fitness_rank(#[trigger] s[i].fitness) >= fitness_rank(
            #[trigger] s[j].fitness,
        )
}

/// `t` is `s` stably reordered: for every rank, the individuals of that rank
/// come in the same order.
pub open spec fn stable_reorder(s: Seq<Individual>, t: Seq<Individual>) -> bool {
    s.len() == t.len() && forall|k: int| #[trigger] with_rank(t, k) == with_rank(s, k)
}

proof fn lemma_filter_pair(x: Individual, y: Individual, k: int)
    requires
        fitness_rank(x.fitness) != fitness_rank(y.fitness),
    ensures
        with_rank(seq![x, y], k) == with_rank(seq![y, x], k),
{
    let p = |z: Individual| fitness_rank(z.fitness) == k;
    reveal_with_fuel(Seq::filter, 3);
    assert(seq![x, y].drop_last() =~= seq![x]);
    assert(seq![y, x].drop_last() =~= seq![y]);
    assert(seq![x].drop_last() =~= Seq::<Individual>::empty());
    assert(seq![y].drop_last() =~= Seq::<Individual>::empty());
    if p(x) {
        assert(with_rank(seq![x, y], k) =~= seq![x]);
        assert(with_rank(seq![y, x], k) =~= seq![x]);
    } else if p(y) {
        assert(with_rank(seq![x, y], k) =~= seq![y]);
        assert(with_rank(seq![y, x], k) =~= seq![y]);
    } else {
        assert(with_rank(seq![x, y], k) =~= Seq::<Individual>::empty());
        assert(with_rank(seq![y, x], k) =~= Seq::<Individual>::empty());
    }
}

/// Exchanging two neighbours of different rank keeps every rank's subsequence.
proof fn lemma_swap_keeps_ranks(s: Seq<Individual>, j: int)
    requires
        0 < j < s.len(),
        fitness_rank(s[j - 1].fitness) != fitness_rank(s[j].fitness),
    ensures
        forall|k: int|
            #[trigger] with_rank(s.update(j - 1, s[j]).update(j, s[j - 1]), k) == with_rank(
                s,
                k,
            ),
{
    let t = s.update(j - 1, s[j]).update(j, s[j - 1]);
    let a = s.take(j - 1);
    let b = s.skip(j + 1);
    assert(s =~= a + seq![s[j - 1], s[j]] + b);
    assert(t =~= a + seq![s[j], s[j - 1]] + b);
    assert forall|k: int| #[trigger] with_rank(t, k) == with_rank(s, k) by {
        let p = |z: Individual| fitness_rank(z.fitness) == k;
        Seq::filter_distributes_over_add(a + seq![s[j - 1], s[j]], b, p);
        Seq::filter_distributes_over_add(a, seq![s[j - 1], s[j]], p);
        Seq::filter_distributes_over_add(a + seq![s[j], s[j - 1]], b, p);
        Seq::filter_distributes_over_add(a, seq![s[j], s[j - 1]], p);
        lemma_filter_pair(s[j - 1], s[j], k);
    }
}

/// Sorts the population by descending fitness, in place and stably: equal
/// fitnesses keep their order. NaN fitnesses rank below all others.
pub fn rank(pop: &mut Vec<Individual>)
    ensures
        ranked(final(pop)@),
        stable_reorder(old(pop)@, final(pop)@),
{
    let n = pop.len();
    let mut i: usize = 0;
    while i < n
        invariant
            i <= n,
            pop.len() == n,
            stable_reorder(old(pop)@, pop@),
            ranked(pop@.take(i as int)),
        decreases n - i,
    {
        proof {
            assert forall|a: int, b: int| 0 <= a < b < i implies fitness_rank(
                #[trigger] pop@[a].fitness,
            ) >= fitness_rank(#[trigger] pop@[b].fitness) by {
                assert(pop@.take(i as int)[a] == pop@[a]);
                assert(pop@.take(i as int)[b] == pop@[b]);
            }
        }
        let mut j: usize = i;
        while j > 0 && rank_key(pop[j - 1].fitness) < rank_key(pop[j].fitness)
            invariant
                j <= i < n,
                pop.len() == n,
                stable_reorder(old(pop)@, pop@),
                forall|a: int, b: int|
                    0 <= a < b < j ==> fitness_rank(#[trigger] pop@[a].fitness) >= fitness_rank(
                        #[trigger] pop@[b].fitness,
                    ),
                forall|a: int, b: int|
                    j < a < b <= i ==> fitness_rank(#[trigger] pop@[a].fitness) >= fitness_rank(
                        #[trigger] pop@[b].fitness,
                    ),
                forall|a: int, b: int|
                    0 <= a < j && j < b <= i ==> fitness_rank(#[trigger] pop@[a].fitness)
                        >= fitness_rank(#[trigger] pop@[b].fitness),
                forall|b: int|
                    j < b <= i ==> fitness_rank(pop@[j as int].fitness) > fitness_rank(
                        #[trigger] pop@[b].fitness,
                    ),
            decreases j,
        {
            let ghost prev = pop@;
            proof {
                lemma_swap_keeps_ranks(prev, j as int);
            }
            let x = pop.remove(j);
            pop.insert(j - 1, x);
            assert(pop@ =~= prev.update(j - 1, prev[j as int]).update(j as int, prev[j - 1]));
            assert forall|k: int| #[trigger] with_rank(pop@, k) == with_rank(old(pop)@, k) by {
                assert(with_rank(prev, k) == with_rank(old(pop)@, k));
            }
            j -= 1;
        }
        proof {
            assert forall|a: int, b: int|
                0 <= a < b < i + 1 implies fitness_rank(
                #[trigger] pop@.take(i + 1)[a].fitness,
            ) >= fitness_rank(#[trigger] pop@.take(i + 1)[b].fitness) by {
                if a < j && b == j && j > 0 {
                    assert(fitness_rank(pop@[a].fitness) >= fitness_rank(pop@[j - 1].fitness)
                        || a == j - 1);
                }
            }
        }
        i += 1;
    }
    assert(pop@.take(n as int) =~= pop@);
}

/// Every chromosome of `s` holds at least `n` genes.
pub open spec fn chromosomes_hold(s: Seq<Individual>, n: nat) -> bool {
    forall|i: int| 0 <= i < s.len() ==> n <= (#[trigger] s[i]).chromosome.len()
}

/// `c` is an unevaluated child that crossover makes from two members of `pop`.
pub open spec fn child_of(c: Individual, pop: Seq<Individual>, n: nat, lo: u64, hi: u64) -> bool {
    c.fitness == 0 && exists|i: int, j: int|
        0 <= i < pop.len() && 0 <= j < pop.len() && c.chromosome@ == crossed(
            pop[i].chromosome@,
            pop[j].chromosome@,
            n,
            lo,
            hi,
        )
}

/// Breeds `pop.len() / 2` children, each from two parents drawn independently
/// by roulette selection (the same parent may be drawn twice).
pub fn make_children(
    pop: &Vec<Individual>,
    odds: &Vec<u64>,
    chromosome_size: usize,
    min_val: u64,
    max_val: u64,
) -> (r: Vec<Individual>)
    requires
        odds.len() == pop.len(),
        chromosomes_hold(pop@, chromosome_size as nat),
    ensures
        r.len() == pop.len() / 2,
        forall|c: int|
            0 <= c < r.len() ==> child_of(
                #[trigger] r@[c],
                pop@,
                chromosome_size as nat,
                min_val,
                max_val,
            ),
{
    let couples = pop.len() / 2;
    let mut children: Vec<Individual> = Vec::with_capacity(couples);
    let mut c: usize = 0;
    while c < couples
        invariant
            c <= couples,
            couples == pop.len() / 2,
            odds.len() == pop.len(),
            chromosomes_hold(pop@, chromosome_size as nat),
            children.len() == c,
            forall|k: int|
                0 <= k < c ==> child_of(
                    #[trigger] children@[k],
                    pop@,
                    chromosome_size as nat,
                    min_val,
                    max_val,
                ),
        decreases couples - c,
    {
        let i = select(odds);
        let j = select(odds);
        let child = crossover(&pop[i], &pop[j], chromosome_size, min_val, max_val);
        assert(child_of(child, pop@, chromosome_size as nat, min_val, max_val));
        children.push(child);
        c += 1;
    }
    children
}

/// Replaces the last `children.len()` individuals, the worst of a ranked
/// population, by the children: the population is reversed, the children
/// take its first places, and it is reversed back. So the kept ones stay in
/// place and the children follow them in reverse order.
pub fn replace_worst(pop: &mut Vec<Individual>, children: Vec<Individual>)
    requires
        children.len() <= old(pop).len(),
    ensures
        final(pop)@ == old(pop)@.take(old(pop).len() - children.len()) + children@.reverse(),
{
    let keep = pop.len() - children.len();
    pop.truncate(keep);
    let mut rest = children;
    let ghost kids = rest@;
    while rest.len() > 0
        invariant
            kids.len() <= old(pop).len(),
            keep == old(pop).len() - kids.len(),
            rest.len() <= kids.len(),
            rest@ == kids.take(rest.len() as int),
            pop@ == old(pop)@.take(keep as int) + kids.reverse().take(kids.len() - rest.len()),
        decreases rest.len(),
    {
        let ghost r0 = rest.len() as int;
        let ghost rest0 = rest@;
        let x = rest.pop().unwrap();
        pop.push(x);
        proof {
            assert(x == kids[r0 - 1]);
            assert(rest@ =~= kids.take(r0 - 1)) by {
                assert(rest@ =~= rest0.drop_last());
            }
            let m = kids.len() - (r0 - 1);
            let rv = kids.reverse();
            assert(rv =~= Seq::new(kids.len(), |k: int| kids[kids.len() - 1 - k]));
            assert(rv[m - 1] == x);
            assert(rv.take(m) =~= rv.take(m - 1).push(x));
        }
    }
    assert(kids.reverse().take(kids.len() as int) =~= kids.reverse());
}

/// `t` is `s` with bit `pos` of every gene flipped and clamped, for some `pos`.
pub open spec fn mutated_from(t: Individual, s: Individual, lo: u64, hi: u64) -> bool {
    t.fitness == s.fitness && exists|pos: u64|
        pos < 64 && t.chromosome@ == flipped(s.chromosome@, pos, lo, hi)
}

/// Gives each individual a mutation with probability `mutation / UNIT`: a draw
/// `d` from `[0, UNIT)` triggers it where `d < mutation`.
pub fn mutate_population(pop: &mut Vec<Individual>, mutation: u64, min_val: u64, max_val: u64)
    ensures
        final(pop).len() == old(pop).len(),
        forall|i: int|
            0 <= i < old(pop).len() ==> #[trigger] final(pop)@[i] == old(pop)@[i] || mutated_from(
                final(pop)@[i],
                old(pop)@[i],
                min_val,
                max_val,
            ),
        mutation == 0 ==> final(pop)@ == old(pop)@,
        mutation >= UNIT ==> forall|i: int|
            0 <= i < old(pop).len() ==> mutated_from(
                #[trigger] final(pop)@[i],
                old(pop)@[i],
                min_val,
                max_val,
            ),
{
    let n = pop.len();
    let mut i: usize = 0;
    while i < n
        invariant
            i <= n,
            n == old(pop).len(),
            pop.len() == n,
            forall|j: int| i <= j < n ==> #[trigger] pop@[j] == old(pop)@[j],
            forall|j: int|
                0 <= j < i ==> #[trigger] pop@[j] == old(pop)@[j] || mutated_from(
                    pop@[j],
                    old(pop)@[j],
                    min_val,
                    max_val,
                ),
            mutation == 0 ==> forall|j: int| 0 <= j < i ==> #[trigger] pop@[j] == old(pop)@[j],
            mutation >= UNIT ==> forall|j: int|
                0 <= j < i ==> mutated_from(#[trigger] pop@[j], old(pop)@[j], min_val, max_val),
        decreases n - i,
    {
        let d = random_range(0, UNIT);
        if d < mutation {
            mutate(&mut pop[i], min_val, max_val);
        }
        i += 1;
    }
    proof {
        if mutation == 0 {
            assert(pop@ =~= old(pop)@);
        }
    }
}

/// `t` is a child of two members of `pop`, mutated or not.
pub open spec fn bred_from(t: Individual, pop: Seq<Individual>, n: nat, lo: u64, hi: u64) -> bool {
    exists|c: Individual| #[trigger] child_of(c, pop, n, lo, hi) && (t == c || mutated_from(t, c, lo, hi))
}

/// One generation after selection odds are known: breed `pop.len() / 2`
/// children, let them replace the worst half of the ranked population, then
/// give every individual its chance of mutation. The population must be
/// evaluated and ranked again afterwards.
pub fn breed(
    pop: &mut Vec<Individual>,
    odds: &Vec<u64>,
    chromosome_size: usize,
    min_val: u64,
    max_val: u64,
    mutation: u64,
)
    requires
        odds.len() == old(pop).len(),
        chromosomes_hold(old(pop)@, chromosome_size as nat),
    ensures
        final(pop).len() == old(pop).len(),
        chromosomes_hold(final(pop)@, chromosome_size as nat),
        forall|i: int|
            0 <= i < old(pop).len() - old(pop).len() / 2 ==> #[trigger] final(pop)@[i] == old(
                pop,
            )@[i] || mutated_from(final(pop)@[i], old(pop)@[i], min_val, max_val),
        forall|i: int|
            old(pop).len() - old(pop).len() / 2 <= i < old(pop).len() ==> bred_from(
                #[trigger] final(pop)@[i],
                old(pop)@,
                chromosome_size as nat,
                min_val,
                max_val,
            ),
        mutation == 0 ==> forall|i: int|
            0 <= i < old(pop).len() - old(pop).len() / 2 ==> #[trigger] final(pop)@[i] == old(
                pop,
            )@[i],
{
    let children = make_children(pop, odds, chromosome_size, min_val, max_val);
    let ghost kids = children@;
    replace_worst(pop, children);
    let ghost mid = pop@;
    mutate_population(pop, mutation, min_val, max_val);
    proof {
        let n = old(pop).len();
        let keep = n - n / 2;
        if kids.len() > 0 {
            assert(kids.reverse() =~= Seq::new(kids.len(), |k: int| kids[kids.len() - 1 - k]));
        } else {
            assert(kids.reverse() =~= Seq::<Individual>::empty());
        }
        assert(mid.len() == n);
        assert forall|i: int| keep <= i < n implies bred_from(
            #[trigger] pop@[i],
            old(pop)@,
            chromosome_size as nat,
            min_val,
            max_val,
        ) by {
            assert(mid[i] == kids[kids.len() - 1 - (i - keep)]);
            assert(child_of(mid[i], old(pop)@, chromosome_size as nat, min_val, max_val));
            assert(pop@[i] == mid[i] || mutated_from(pop@[i], mid[i], min_val, max_val));
            assert(child_of(mid[i], old(pop)@, chromosome_size as nat, min_val, max_val) && (pop@[i]
                == mid[i] || mutated_from(pop@[i], mid[i], min_val, max_val)));
        }
        assert forall|i: int| 0 <= i < n implies chromosome_size <= (
        #[trigger] pop@[i]).chromosome.len() by {
            if i < keep {
                assert(mid[i] == old(pop)@[i]);
            } else {
                assert(mid[i] == kids[kids.len() - 1 - (i - keep)]);
                assert(child_of(mid[i], old(pop)@, chromosome_size as nat, min_val, max_val));
            }
            if pop@[i] != mid[i] {
                assert(mutated_from(pop@[i], mid[i], min_val, max_val));
            }
        }
    }
}

} // verus!
