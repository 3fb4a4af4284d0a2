//! The genetic algorithm: roulette-wheel selection, uniform crossover,
//! bounded random mutation, and the two evolution modes — full
//! replacement, and elitist replacement that keeps the fitter half of
//! the population verbatim.

use vstd::prelude::*;
use vstd::seq_lib::to_multiset_update;
use crate::{GENE_LIMIT, CHANCE_ONE};
use crate::chromosome::{Chromosome, genes_bounded};
use crate::individual::Individual;
use crate::statistics::{
    Statistics, fitness_sum, fitness_min, fitness_max, lemma_fitness_sum_take,
    lemma_fitness_elem_le_sum, lemma_fitness_sum_pos_exists,
};
use crate::rng::{rng_below, rng_bool};

verus! {

/// The fitness values of a population, in order.
pub open spec fn fitnesses<I: Individual>(s: Seq<I>) -> Seq<u64> {
    s.map_values(|x: I| x.fitness_spec())
}

/// The gene count shared by a population's chromosomes.
pub open spec fn chrom_len<I: Individual>(s: Seq<I>) -> int {
    if s.len() == 0 {
        0
    } else {
        s[0].chromosome_spec().len() as int
    }
}

/// Every member's chromosome has `len` bounded genes.
pub open spec fn uniform_chromosomes<I: Individual>(s: Seq<I>, len: int) -> bool {
    forall|i: int| 0 <= i < s.len() ==> {
        &&& (#[trigger] s[i]).chromosome_spec().len() == len
        &&& genes_bounded(s[i].chromosome_spec())
    }
}

/// Fitness never decreases along the sequence.
pub open spec fn sorted_by_fitness<I: Individual>(s: Seq<I>) -> bool {
    forall|i: int, j: int|
        0 <= i < j < s.len()
        ==> (#[trigger] s[i]).fitness_spec() <= (#[trigger] s[j]).fitness_spec()
}

/// How an elitist evolution relates input to output: some fitness-sorted
/// permutation of the input has its upper half copied verbatim (both
/// chromosome and fitness) to the front of the output, and everything
/// after those survivors is a fresh offspring of fitness 0.
pub open spec fn elitist_shape<I: Individual>(pop: Seq<I>, sorted: Seq<I>, newp: Seq<I>)
    -> bool {
    let n = pop.len() as int;
    let half = n / 2;
    &&& sorted.len() == n
    &&& sorted.to_multiset() == pop.to_multiset()
    &&& sorted_by_fitness(sorted)
    &&& forall|i: int| 0 <= i < n - half ==> {
        &&& (#[trigger] newp[i]).chromosome_spec() == sorted[half + i].chromosome_spec()
        &&& newp[i].fitness_spec() == sorted[half + i].fitness_spec()
    }
    &&& forall|i: int| n - half <= i < n ==> (#[trigger] newp[i]).fitness_spec() == 0
}

#[derive(Clone, Copy, PartialEq, Eq, Structural, Debug)]
pub enum EvolveError {
    EmptyPopulation,
    ZeroFitness,
}

#[derive(Clone, Copy, PartialEq, Eq, Structural, Debug, Default)]
pub struct RouletteWheelSelection;

impl RouletteWheelSelection {
    pub fn new() -> (r: Self) {
        RouletteWheelSelection
    }

    /// Draws one member with probability proportional to its fitness;
    /// yields nothing exactly when the pool is empty or every fitness
    /// is zero.
    pub fn select<I: Individual>(&self, rng: &mut rand::rngs::StdRng, population: &Vec<I>)
        -> (r: Option<usize>)
        ensures
            r is Some <==> fitness_sum(fitnesses(population@)) > 0,
            r is Some ==> r->0 < population@.len()
                && population@[r->0 as int].fitness_spec() > 0,
    {
        let ghost fits = fitnesses(population@);
        let n = population.len();
        let mut total: u128 = 0;
        let mut i: usize = 0;
        while i < n
            invariant
                i <= n,
                n == population@.len(),
                fits == fitnesses(population@),
                total == fitness_sum(fits.take(i as int)),
                total <= (i as int) * 0xffff_ffff_ffff_ffffu64,
            decreases n - i,
        {
            proof {
                assert(fits.take(i + 1).drop_last() =~= fits.take(i as int));
                assert(fits.take(i + 1).last() == fits[i as int]);
                assert(((i + 1) as int) * 0xffff_ffff_ffff_ffffu64
                    == (i as int) * 0xffff_ffff_ffff_ffffu64 + 0xffff_ffff_ffff_ffffu64)
                    by (nonlinear_arith);
                assert((i as int) * 0xffff_ffff_ffff_ffffu64
                    <= 0xffff_ffff_ffff_ffffu64 * 0xffff_ffff_ffff_ffffu64)
                    by (nonlinear_arith)
                    requires 0 <= i as int <= 0xffff_ffff_ffff_ffffu64;
            }
            let f = population[i].fitness();
            total = total + (f as u128);
            i = i + 1;
        }
        proof {
            assert(fits.take(n as int) =~= fits);
        }
        if total == 0 {
            return None;
        }
        let cap: u64 = if total > u64::MAX as u128 {
            u64::MAX
        } else {
            total as u64
        };
        let t: u64 = rng_below(rng, cap);
        let mut acc: u128 = 0;
        let mut j: usize = 0;
        while j < n
            invariant
                j <= n,
                n == population@.len(),
                fits == fitnesses(population@),
                acc == fitness_sum(fits.take(j as int)),
                acc <= t as u128,
                (t as u128) < total,
                total == fitness_sum(fits),
            decreases n - j,
        {
            proof {
                assert(fits.take(j + 1).drop_last() =~= fits.take(j as int));
                assert(fits.take(j + 1).last() == fits[j as int]);
            }
            let f = population[j].fitness();
            if (t as u128) < acc + (f as u128) {
                return Some(j);
            }
            acc = acc + (f as u128);
            j = j + 1;
        }
        proof {
            // The draw lies strictly below the total, so some member's
            // band absorbs it before the walk runs out.
            assert(fits.take(n as int) =~= fits);
            assert(false);
        }
        None
    }
}

/// One gene of a crossover child: from parent a where the coin says
/// so, from parent b otherwise.
pub open spec fn crossed_gene(a: int, b: int, choice: bool) -> int {
    if choice {
        a
    } else {
        b
    }
}

/// `r` is the gene-by-gene crossover of `a` and `b` under `choices`.
pub open spec fn crossed_with(a: Seq<i64>, b: Seq<i64>, choices: Seq<bool>, r: Seq<i64>)
    -> bool {
    &&& choices.len() == a.len()
    &&& r.len() == a.len()
    &&& forall|g: int| 0 <= g < r.len()
        ==> #[trigger] r[g] as int == crossed_gene(a[g] as int, b[g] as int, choices[g])
}

#[derive(Clone, Copy, PartialEq, Eq, Structural, Debug, Default)]
pub struct UniformCrossover;

impl UniformCrossover {
    pub fn new() -> (r: Self) {
        UniformCrossover
    }

    /// The deterministic half of uniform crossover: the child takes
    /// each gene from parent a where the choice says so, from parent b
    /// otherwise; in particular, all-true choices reproduce parent a
    /// exactly.
    pub fn crossover_with_choices(&self, parent_a: &Chromosome, parent_b: &Chromosome,
        choices: &Vec<bool>) -> (r: Chromosome)
        requires
            parent_a@.len() == parent_b@.len(),
            choices@.len() == parent_a@.len(),
            parent_a.wf(),
            parent_b.wf(),
        ensures
            r@.len() == parent_a@.len(),
            forall|i: int| 0 <= i < r@.len()
                ==> #[trigger] r@[i] == if choices@[i] { parent_a@[i] } else { parent_b@[i] },
            r.wf(),
            (forall|i: int| 0 <= i < choices@.len() ==> #[trigger] choices@[i])
                ==> r@ == parent_a@,
    {
        let n = parent_a.len();
        let mut genes: Vec<i64> = Vec::new();
        let mut i: usize = 0;
        while i < n
            invariant
                i <= n,
                n == parent_a@.len(),
                parent_a@.len() == parent_b@.len(),
                choices@.len() == parent_a@.len(),
                parent_a.wf(),
                parent_b.wf(),
                genes@.len() == i,
                forall|k: int| 0 <= k < i ==> #[trigger] genes@[k]
                    == if choices@[k] { parent_a@[k] } else { parent_b@[k] },
            decreases n - i,
        {
            if choices[i] {
                genes.push(parent_a.gene(i));
            } else {
                genes.push(parent_b.gene(i));
            }
            i = i + 1;
        }
        let r = Chromosome::new(genes);
        proof {
            if forall|k: int| 0 <= k < choices@.len() ==> #[trigger] choices@[k] {
                assert(r@ =~= parent_a@);
            }
        }
        r
    }

    /// Uniform crossover: each gene of the child comes from one of the
    /// two equal-length parents, chosen by a fresh coin each.
    pub fn crossover(&self, rng: &mut rand::rngs::StdRng, parent_a: &Chromosome,
        parent_b: &Chromosome) -> (r: Chromosome)
        requires
            parent_a@.len() == parent_b@.len(),
            parent_a.wf(),
            parent_b.wf(),
        ensures
            r@.len() == parent_a@.len(),
            forall|i: int| 0 <= i < r@.len()
                ==> #[trigger] r@[i] == parent_a@[i] || r@[i] == parent_b@[i],
            r.wf(),
            exists|choices: Seq<bool>| #[trigger] crossed_with(parent_a@, parent_b@,
                choices, r@),
    {
        let n = parent_a.len();
        let mut choices: Vec<bool> = Vec::new();
        let mut i: usize = 0;
        while i < n
            invariant
                choices@.len() == i,
                i <= n,
            decreases n - i,
        {
            choices.push(rng_bool(rng));
            i = i + 1;
        }
        let r = self.crossover_with_choices(parent_a, parent_b, &choices);
        proof {
            assert(crossed_with(parent_a@, parent_b@, choices@, r@));
        }
        r
    }
}

/// Bounded random perturbation: each gene is touched with probability
/// `chance` (in `CHANCE_ONE` units) and then moved by a magnitude drawn
/// uniformly from `[0, coeff)` with a uniformly random sign, clamped
/// back into the gene range.  The name is the operator's traditional
/// one; the offset is uniform, not normal.
#[derive(Clone, Copy, PartialEq, Eq, Structural, Debug)]
pub struct GaussianMutation {
    pub chance: u64,
    pub coeff: u64,
}

/// What one gene becomes under given draws: touched exactly when the
/// roll lies below the chance, then moved by the magnitude with the
/// drawn sign and clamped back into the gene range.
pub open spec fn mutated_gene(g: int, chance: int, roll: int, negative: bool, mag: int)
    -> int {
    if roll < chance {
        let moved = if negative { g - mag } else { g + mag };
        if moved < -GENE_LIMIT {
            -GENE_LIMIT as int
        } else if moved > GENE_LIMIT {
            GENE_LIMIT as int
        } else {
            moved
        }
    } else {
        g
    }
}

impl GaussianMutation {
    pub open spec fn wf(&self) -> bool {
        self.chance <= CHANCE_ONE && self.coeff <= GENE_LIMIT
    }

    pub fn new(chance: u64, coeff: u64) -> (r: Self)
        requires
            chance <= CHANCE_ONE,
            coeff <= GENE_LIMIT,
        ensures
            r.chance == chance,
            r.coeff == coeff,
            r.wf(),
    {
        GaussianMutation { chance, coeff }
    }

    /// The deterministic half of mutation: applies given per-gene
    /// draws — a roll against the chance, a sign, and a magnitude —
    /// to every gene in order.
    pub fn mutate_with_draws(&self, child: &mut Chromosome, draws: &Vec<(u64, bool, u64)>)
        requires
            self.wf(),
            old(child).wf(),
            draws@.len() == old(child)@.len(),
            forall|i: int| 0 <= i < draws@.len() ==> (#[trigger] draws@[i]).2 <= GENE_LIMIT,
        ensures
            final(child)@.len() == old(child)@.len(),
            final(child).wf(),
            forall|i: int| 0 <= i < final(child)@.len()
                ==> #[trigger] final(child)@[i] == mutated_gene(old(child)@[i] as int,
                    self.chance as int, draws@[i].0 as int, draws@[i].1,
                    draws@[i].2 as int),
    {
        let n = child.len();
        let mut i: usize = 0;
        while i < n
            invariant
                i <= n,
                self.wf(),
                child@.len() == n,
                n == old(child)@.len(),
                draws@.len() == n,
                forall|k: int| 0 <= k < n ==> (#[trigger] draws@[k]).2 <= GENE_LIMIT,
                child.wf(),
                forall|k: int| i <= k < n ==> #[trigger] child@[k] == old(child)@[k],
                forall|k: int| 0 <= k < i
                    ==> #[trigger] child@[k] == mutated_gene(old(child)@[k] as int,
                        self.chance as int, draws@[k].0 as int, draws@[k].1,
                        draws@[k].2 as int),
            decreases n - i,
        {
            let (roll, sign, mag_raw) = draws[i];
            if roll < self.chance {
                let mag: i64 = mag_raw as i64;
                let g = child.gene(i);
                let moved: i64 = if sign {
                    g - mag
                } else {
                    g + mag
                };
                let clamped: i64 = if moved < -GENE_LIMIT {
                    -GENE_LIMIT
                } else if moved > GENE_LIMIT {
                    GENE_LIMIT
                } else {
                    moved
                };
                child.set_gene(i, clamped);
            }
            i = i + 1;
        }
    }

    /// Mutates every gene independently under fresh draws.  A zero
    /// chance or a zero magnitude leaves the chromosome exactly
    /// unchanged; otherwise no gene moves by `coeff` or more.
    pub fn mutate(&self, rng: &mut rand::rngs::StdRng, child: &mut Chromosome)
        requires
            self.wf(),
            old(child).wf(),
        ensures
            final(child)@.len() == old(child)@.len(),
            final(child).wf(),
            exists|ds: Seq<(u64, bool, u64)>|
                #![trigger ds.len()]
            {
                &&& ds.len() == old(child)@.len()
                &&& forall|i: int| 0 <= i < ds.len()
                    ==> ((#[trigger] ds[i]).2 < self.coeff || ds[i].2 == 0)
                &&& forall|i: int| 0 <= i < final(child)@.len()
                    ==> #[trigger] final(child)@[i] == mutated_gene(old(child)@[i] as int,
                        self.chance as int, ds[i].0 as int, ds[i].1, ds[i].2 as int)
            },
            forall|i: int| 0 <= i < final(child)@.len()
                ==> -(self.coeff as int) <= #[trigger] final(child)@[i] - old(child)@[i]
                    <= self.coeff,
            self.chance == 0 ==> final(child)@ == old(child)@,
            self.coeff == 0 ==> final(child)@ == old(child)@,
    {
        let n = child.len();
        let mut draws: Vec<(u64, bool, u64)> = Vec::new();
        let mut i: usize = 0;
        while i < n
            invariant
                i <= n,
                self.wf(),
                draws@.len() == i,
                forall|k: int| 0 <= k < i
                    ==> ((#[trigger] draws@[k]).2 < self.coeff || draws@[k].2 == 0),
            decreases n - i,
        {
            let sign = rng_bool(rng);
            let roll = rng_below(rng, CHANCE_ONE);
            let mag: u64 = if roll < self.chance && self.coeff > 0 {
                rng_below(rng, self.coeff)
            } else {
                0
            };
            draws.push((roll, sign, mag));
            i = i + 1;
        }
        self.mutate_with_draws(child, &draws);
        proof {
            assert forall|k: int| 0 <= k < child@.len()
                implies -(self.coeff as int) <= #[trigger] child@[k] - old(child)@[k]
                    <= self.coeff by {
                assert(child@[k] == mutated_gene(old(child)@[k] as int,
                    self.chance as int, draws@[k].0 as int, draws@[k].1,
                    draws@[k].2 as int));
            }
            if self.chance == 0 {
                assert(child@ =~= old(child)@);
            }
            if self.coeff == 0 {
                assert forall|k: int| 0 <= k < child@.len()
                    implies #[trigger] child@[k] == old(child)@[k] by {
                    assert(draws@[k].2 == 0);
                }
                assert(child@ =~= old(child)@);
            }
        }
    }
}

/// The population members the index sequence picks out, in index order.
pub open spec fn smap<I: Individual>(idx: Seq<usize>, pop: Seq<I>) -> Seq<I> {
    idx.map_values(|t: usize| pop[t as int])
}

/// Swapping two places of a sequence keeps its multiset.
proof fn lemma_swap_multiset<A>(s: Seq<A>, i: int, j: int)
    requires
        0 <= i <= j < s.len(),
    ensures
        s.update(i, s[j]).update(j, s[i]).to_multiset() == s.to_multiset(),
{
    broadcast use vstd::multiset::group_multiset_axioms;
    broadcast use vstd::multiset::group_multiset_properties;

    if i == j {
        assert(s.update(i, s[j]).update(j, s[i]) =~= s);
    } else {
        let s1 = s.update(i, s[j]);
        to_multiset_update(s, i, s[j]);
        to_multiset_update(s1, j, s[i]);
        assert(s1[j] == s[j]);
        vstd::seq_lib::to_multiset_contains(s, s[i]);
        assert(s.contains(s[i]));
        assert(s.to_multiset().count(s[i]) > 0);
        assert(s.update(i, s[j]).update(j, s[i]).to_multiset() =~= s.to_multiset());
    }
}

/// Selection sort over indices: the returned index vector enumerates
/// the population in non-decreasing fitness order.
fn sort_by_fitness_indices<I: Individual>(population: &Vec<I>) -> (idx: Vec<usize>)
    ensures
        idx@.len() == population@.len(),
        forall|q: int| 0 <= q < idx@.len() ==> (#[trigger] idx@[q]) < population@.len(),
        smap(idx@, population@).to_multiset() == population@.to_multiset(),
        sorted_by_fitness(smap(idx@, population@)),
{
    let n = population.len();
    let ghost pop = population@;
    let mut idx: Vec<usize> = Vec::new();
    let mut t: usize = 0;
    while t < n
        invariant
            t <= n,
            idx@.len() == t,
            forall|q: int| 0 <= q < t ==> #[trigger] idx@[q] == q,
        decreases n - t,
    {
        idx.push(t);
        t = t + 1;
    }
    proof {
        assert(smap(idx@, pop) =~= pop);
    }
    let mut k: usize = 0;
    while k < n
        invariant
            k <= n,
            n == pop.len(),
            pop == population@,
            idx@.len() == n,
            forall|q: int| 0 <= q < n ==> (#[trigger] idx@[q]) < n,
            smap(idx@, pop).to_multiset() == pop.to_multiset(),
            forall|a: int, b: int|
                0 <= a < k && a <= b < n
                ==> (#[trigger] smap(idx@, pop)[a]).fitness_spec()
                    <= (#[trigger] smap(idx@, pop)[b]).fitness_spec(),
        decreases n - k,
    {
        let mut m: usize = k;
        let mut j: usize = k + 1;
        while j < n
            invariant
                k <= m < j <= n,
                n == pop.len(),
                pop == population@,
                idx@.len() == n,
                forall|q: int| 0 <= q < n ==> (#[trigger] idx@[q]) < n,
                forall|q: int| k <= q < j
                    ==> smap(idx@, pop)[m as int].fitness_spec()
                        <= (#[trigger] smap(idx@, pop)[q]).fitness_spec(),
            decreases n - j,
        {
            if population[idx[j]].fitness() < population[idx[m]].fitness() {
                m = j;
            }
            j = j + 1;
        }
        let ghost idx_old = idx@;
        let ghost s_old = smap(idx@, pop);
        let a = idx[k];
        let b = idx[m];
        let slot_k = &mut idx[k];
        *slot_k = b;
        let slot_m = &mut idx[m];
        *slot_m = a;
        proof {
            assert(idx@ == idx_old.update(k as int, b).update(m as int, a));
            let s_new = smap(idx@, pop);
            assert(s_new =~= s_old.update(k as int, s_old[m as int]).update(m as int,
                s_old[k as int]));
            lemma_swap_multiset(s_old, k as int, m as int);
            assert forall|a2: int, b2: int|
                0 <= a2 < k + 1 && a2 <= b2 < n
                implies (#[trigger] s_new[a2]).fitness_spec()
                    <= (#[trigger] s_new[b2]).fitness_spec() by {
                assert(forall|q: int| 0 <= q < n ==> #[trigger] s_new[q] == (
                    if q == k as int { s_old[m as int] }
                    else if q == m as int { s_old[k as int] }
                    else { s_old[q] }));
            }
        }
        k = k + 1;
    }
    idx
}

/// The child was bred from the pool: two parents drawn from it with
/// positive fitness (as the roulette wheel guarantees), crossed gene
/// by gene under some coin stream, then mutated under some draws whose
/// magnitudes stay below `coeff`.
pub open spec fn bred_from<I: Individual>(pool: Seq<I>, chance: int, coeff: int, child: I)
    -> bool {
    exists|p1: int, p2: int, choices: Seq<bool>, ds: Seq<(u64, bool, u64)>|
        #![trigger pool[p1], pool[p2], choices.len(), ds.len()]
    {
        &&& 0 <= p1 < pool.len() && pool[p1].fitness_spec() > 0
        &&& 0 <= p2 < pool.len() && pool[p2].fitness_spec() > 0
        &&& pool[p1].chromosome_spec().len() == pool[p2].chromosome_spec().len()
        &&& choices.len() == pool[p1].chromosome_spec().len()
        &&& ds.len() == choices.len()
        &&& forall|g: int| 0 <= g < ds.len()
            ==> ((#[trigger] ds[g]).2 < coeff || ds[g].2 == 0)
        &&& child.fitness_spec() == 0
        &&& child.chromosome_spec().len() == choices.len()
        &&& forall|g: int| 0 <= g < child.chromosome_spec().len()
            ==> #[trigger] child.chromosome_spec()[g] as int == mutated_gene(
                crossed_gene(pool[p1].chromosome_spec()[g] as int,
                    pool[p2].chromosome_spec()[g] as int, choices[g]),
                chance, ds[g].0 as int, ds[g].1, ds[g].2 as int)
    }
}

/// The genetic algorithm: one selection, crossover, and mutation method
/// driving both evolution modes.
pub struct GeneticAlgorithm {
    pub selection_method: RouletteWheelSelection,
    pub crossover_method: UniformCrossover,
    pub mutation_method: GaussianMutation,
}

impl GeneticAlgorithm {
    pub open spec fn wf(&self) -> bool {
        self.mutation_method.wf()
    }

    pub fn new(selection_method: RouletteWheelSelection, crossover_method: UniformCrossover,
        mutation_method: GaussianMutation) -> (r: Self)
        requires
            mutation_method.wf(),
        ensures
            r.wf(),
            r.mutation_method == mutation_method,
    {
        GeneticAlgorithm { selection_method, crossover_method, mutation_method }
    }

    /// One bred offspring: two roulette draws from the pool, uniform
    /// crossover of their chromosomes, mutation, fitness reset to 0.
    fn breed_one<I: Individual>(&self, rng: &mut rand::rngs::StdRng, pool: &Vec<I>,
        Ghost(len): Ghost<int>) -> (r: I)
        requires
            self.wf(),
            fitness_sum(fitnesses(pool@)) > 0,
            uniform_chromosomes(pool@, len),
        ensures
            r.fitness_spec() == 0,
            r.chromosome_spec().len() == len,
            genes_bounded(r.chromosome_spec()),
            bred_from(pool@, self.mutation_method.chance as int,
                self.mutation_method.coeff as int, r),
    {
        let i1 = self.selection_method.select(rng, pool).unwrap();
        let i2 = self.selection_method.select(rng, pool).unwrap();
        let mut child = self.crossover_method.crossover(rng, pool[i1].chromosome(),
            pool[i2].chromosome());
        let ghost crossed = child@;
        self.mutation_method.mutate(rng, &mut child);
        let ghost mutated = child@;
        let r = I::create(child);
        proof {
            let a = pool@[i1 as int].chromosome_spec();
            let b = pool@[i2 as int].chromosome_spec();
            let choices = choose|c: Seq<bool>| #[trigger] crossed_with(a, b, c, crossed);
            let chance = self.mutation_method.chance;
            let ds = choose|d: Seq<(u64, bool, u64)>|
                #![trigger d.len()]
            {
                &&& d.len() == crossed.len()
                &&& forall|g: int| 0 <= g < d.len()
                    ==> ((#[trigger] d[g]).2 < self.mutation_method.coeff || d[g].2 == 0)
                &&& forall|g: int| 0 <= g < mutated.len()
                    ==> #[trigger] mutated[g] == mutated_gene(crossed[g] as int,
                        chance as int, d[g].0 as int, d[g].1, d[g].2 as int)
            };
            assert forall|g: int| 0 <= g < r.chromosome_spec().len()
                implies #[trigger] r.chromosome_spec()[g] as int == mutated_gene(
                    crossed_gene(a[g] as int, b[g] as int, choices[g]),
                    chance as int, ds[g].0 as int, ds[g].1, ds[g].2 as int) by {
                assert(crossed[g] as int == crossed_gene(a[g] as int, b[g] as int,
                    choices[g]));
                assert(mutated[g] == mutated_gene(crossed[g] as int, chance as int,
                    ds[g].0 as int, ds[g].1, ds[g].2 as int));
            }
            assert(bred_from(pool@, self.mutation_method.chance as int,
                self.mutation_method.coeff as int, r)) by {
                assert(pool@[i1 as int] == pool@[i1 as int]
                    && pool@[i2 as int] == pool@[i2 as int] && choices.len() == choices.len()
                    && ds.len() == ds.len());
            }
        }
        r
    }

    /// The elitist mode: sort ascending by fitness, keep the upper half
    /// verbatim at the front of the output, and breed the rest from
    /// that upper half alone.
    #[verifier::rlimit(30)]
    fn safe_evolve<I: Individual>(&self, rng: &mut rand::rngs::StdRng, population: Vec<I>,
        stats: Statistics) -> (r: (Vec<I>, Statistics))
        requires
            self.wf(),
            population@.len() > 0,
            fitness_sum(fitnesses(population@)) > 0,
            uniform_chromosomes(population@, chrom_len(population@)),
        ensures
            r.1 == stats,
            r.0@.len() == population@.len(),
            uniform_chromosomes(r.0@, chrom_len(population@)),
            exists|sorted: Seq<I>| elitist_shape(population@, sorted, r.0@),
            forall|i: int|
                population@.len() - population@.len() / 2 <= i < population@.len()
                ==> bred_from(r.0@.subrange(0,
                    population@.len() - population@.len() / 2),
                    self.mutation_method.chance as int,
                    self.mutation_method.coeff as int, #[trigger] r.0@[i]),
    {
        broadcast use vstd::seq_lib::to_multiset_contains;

        let n = population.len();
        let half = n / 2;
        let ghost len = chrom_len(population@);
        let idx = sort_by_fitness_indices(&population);
        let ghost sorted = smap(idx@, population@);
        let mut top: Vec<I> = Vec::new();
        let mut k: usize = half;
        while k < n
            invariant
                half <= k <= n,
                n == population@.len(),
                half == n as int / 2,
                idx@.len() == n,
                forall|q: int| 0 <= q < n ==> (#[trigger] idx@[q]) < n,
                sorted == smap(idx@, population@),
                uniform_chromosomes(population@, len),
                top@.len() == k - half,
                forall|i: int| 0 <= i < top@.len() ==> {
                    &&& (#[trigger] top@[i]).chromosome_spec()
                        == sorted[half as int + i].chromosome_spec()
                    &&& top@[i].fitness_spec() == sorted[half as int + i].fitness_spec()
                },
            decreases n - k,
        {
            let src = idx[k];
            let c = population[src].chromosome().duplicate();
            let f = population[src].fitness();
            let made = I::create_fit(c, f);
            top.push(made);
            k = k + 1;
        }
        proof {
            // The sum of the input's fitness is positive, so some member
            // has positive fitness; the sorted permutation contains it,
            // its last member tops it, and that member survives into the
            // kept half, so the kept half's fitness sum is positive too.
            lemma_fitness_sum_pos_exists(fitnesses(population@));
            let w = choose|i: int| 0 <= i < fitnesses(population@).len()
                && #[trigger] fitnesses(population@)[i] > 0;
            assert(population@.contains(population@[w]));
            assert(population@.to_multiset().count(population@[w]) > 0);
            assert(sorted.to_multiset().count(population@[w]) > 0);
            assert(sorted.contains(population@[w]));
            let j = choose|j: int| 0 <= j < sorted.len() && sorted[j] == population@[w];
            assert(sorted[j].fitness_spec() > 0);
            if j < n - 1 {
                assert(sorted[n - 1].fitness_spec() >= sorted[j].fitness_spec());
            }
            assert(top@[(n - half - 1) as int].fitness_spec()
                == sorted[n - 1].fitness_spec());
            assert(fitnesses(top@)[(n - half - 1) as int] > 0);
            lemma_fitness_elem_le_sum(fitnesses(top@), (n - half - 1) as int);
        }
        let mut addon: Vec<I> = Vec::new();
        let mut c: usize = 0;
        while c < half
            invariant
                c <= half,
                self.wf(),
                fitness_sum(fitnesses(top@)) > 0,
                uniform_chromosomes(top@, len),
                addon@.len() == c,
                forall|i: int| 0 <= i < addon@.len() ==> {
                    &&& (#[trigger] addon@[i]).fitness_spec() == 0
                    &&& addon@[i].chromosome_spec().len() == len
                    &&& genes_bounded(addon@[i].chromosome_spec())
                    &&& bred_from(top@, self.mutation_method.chance as int,
                        self.mutation_method.coeff as int, addon@[i])
                },
            decreases half - c,
        {
            let child = self.breed_one(rng, &top, Ghost(len));
            addon.push(child);
            c = c + 1;
        }
        let ghost kept = top@;
        top.append(&mut addon);
        let result = (top, stats);
        proof {
            assert(elitist_shape(population@, sorted, result.0@));
            assert(exists|s2: Seq<I>| elitist_shape(population@, s2, result.0@));
            assert(result.0@.subrange(0, population@.len() - population@.len() / 2)
                =~= kept);
        }
        result
    }

    /// One evolution pass.  Fails on an empty population, and when no
    /// member has positive fitness (so roulette selection could draw
    /// nothing); otherwise returns exactly as many individuals as it
    /// was given, together with the input population's fitness
    /// statistics, taken before breeding.
    pub fn evolve<I: Individual>(&self, rng: &mut rand::rngs::StdRng, population: Vec<I>,
        safe_evolve: bool) -> (r: Result<(Vec<I>, Statistics), EvolveError>)
        requires
            self.wf(),
            fitness_sum(fitnesses(population@)) <= u64::MAX,
            uniform_chromosomes(population@, chrom_len(population@)),
        ensures
            r == Err::<(Vec<I>, Statistics), EvolveError>(EvolveError::EmptyPopulation)
                <==> population@.len() == 0,
            r == Err::<(Vec<I>, Statistics), EvolveError>(EvolveError::ZeroFitness)
                <==> (population@.len() > 0 && fitness_sum(fitnesses(population@)) == 0),
            r matches Ok(ok) ==> {
                &&& ok.0@.len() == population@.len()
                &&& uniform_chromosomes(ok.0@, chrom_len(population@))
                &&& ok.1.min_fitness == fitness_min(fitnesses(population@))
                &&& ok.1.max_fitness == fitness_max(fitnesses(population@))
                &&& ok.1.mean_fitness == fitness_sum(fitnesses(population@))
                    / (population@.len() as int)
                &&& (!safe_evolve ==> forall|i: int| 0 <= i < ok.0@.len() ==> {
                    &&& (#[trigger] ok.0@[i]).fitness_spec() == 0
                    &&& bred_from(population@, self.mutation_method.chance as int,
                        self.mutation_method.coeff as int, ok.0@[i])
                })
                &&& (safe_evolve ==> exists|sorted: Seq<I>| elitist_shape(population@,
                    sorted, ok.0@))
                &&& (safe_evolve ==> forall|i: int|
                    population@.len() - population@.len() / 2 <= i < population@.len()
                    ==> bred_from(ok.0@.subrange(0,
                        population@.len() - population@.len() / 2),
                        self.mutation_method.chance as int,
                        self.mutation_method.coeff as int, #[trigger] ok.0@[i]))
            },
    {
        let ghost fits = fitnesses(population@);
        let n = population.len();
        if n == 0 {
            return Err(EvolveError::EmptyPopulation);
        }
        let mut fit_vec: Vec<u64> = Vec::new();
        let mut i: usize = 0;
        while i < n
            invariant
                i <= n,
                n == population@.len(),
                fits == fitnesses(population@),
                fit_vec@ == fits.take(i as int),
            decreases n - i,
        {
            fit_vec.push(population[i].fitness());
            i = i + 1;
            proof {
                assert(fit_vec@ =~= fits.take(i as int));
            }
        }
        proof {
            assert(fits.take(n as int) =~= fits);
        }
        let stats = Statistics::new(&fit_vec);
        let mut total: u64 = 0;
        let mut j: usize = 0;
        while j < n
            invariant
                j <= n,
                n == population@.len(),
                fits == fitnesses(population@),
                fit_vec@ == fits,
                fitness_sum(fits) <= u64::MAX,
                total == fitness_sum(fits.take(j as int)),
            decreases n - j,
        {
            proof {
                assert(fits.take(j + 1).drop_last() =~= fits.take(j as int));
                assert(fits.take(j + 1).last() == fits[j as int]);
                lemma_fitness_sum_take(fits, j + 1);
            }
            total = total + fit_vec[j];
            j = j + 1;
        }
        proof {
            assert(fits.take(n as int) =~= fits);
        }
        if total == 0 {
            return Err(EvolveError::ZeroFitness);
        }
        if safe_evolve {
            return Ok(self.safe_evolve(rng, population, stats));
        }
        let ghost len = chrom_len(population@);
        let mut newp: Vec<I> = Vec::new();
        let mut c: usize = 0;
        while c < n
            invariant
                c <= n,
                self.wf(),
                n == population@.len(),
                fitness_sum(fitnesses(population@)) > 0,
                uniform_chromosomes(population@, len),
                newp@.len() == c,
                forall|i: int| 0 <= i < newp@.len() ==> {
                    &&& (#[trigger] newp@[i]).fitness_spec() == 0
                    &&& newp@[i].chromosome_spec().len() == len
                    &&& genes_bounded(newp@[i].chromosome_spec())
                    &&& bred_from(population@, self.mutation_method.chance as int,
                        self.mutation_method.coeff as int, newp@[i])
                },
            decreases n - c,
        {
            let child = self.breed_one(rng, &population, Ghost(len));
            newp.push(child);
            c = c + 1;
        }
        Ok((newp, stats))
    }
}

} // verus!
