//! A snapshot of a population's fitness distribution, taken before the
//! genetic algorithm produces offspring: minimum, maximum, and the
//! (floored) arithmetic mean.

use vstd::prelude::*;

verus! {

/// Sum of a sequence of fitness values.
pub open spec fn fitness_sum(s: Seq<u64>) -> int
    decreases s.len(),
{
    if s.len() == 0 {
        0
    } else {
        fitness_sum(s.drop_last()) + s.last()
    }
}

/// Minimum of a non-empty sequence of fitness values.
pub open spec fn fitness_min(s: Seq<u64>) -> int
    recommends
        s.len() > 0,
    decreases s.len(),
{
    if s.len() <= 1 {
        if s.len() == 1 { s[0] as int } else { 0 }
    } else {
        let m = fitness_min(s.drop_last());
        if s.last() < m { s.last() as int } else { m }
    }
}

/// Maximum of a non-empty sequence of fitness values.
pub open spec fn fitness_max(s: Seq<u64>) -> int
    recommends
        s.len() > 0,
    decreases s.len(),
{
    if s.len() <= 1 {
        if s.len() == 1 { s[0] as int } else { 0 }
    } else {
        let m = fitness_max(s.drop_last());
        if s.last() > m { s.last() as int } else { m }
    }
}

/// Sums of prefixes never exceed the sum of the whole (all values are
/// non-negative).
pub proof fn lemma_fitness_sum_take(s: Seq<u64>, i: int)
    requires
        0 <= i <= s.len(),
    ensures
        0 <= fitness_sum(s.take(i)) <= fitness_sum(s),
    decreases s.len(),
{
    if s.len() == 0 {
    } else if i == s.len() {
        assert(s.take(i) =~= s);
        lemma_fitness_sum_take(s.drop_last(), s.len() - 1);
    } else {
        lemma_fitness_sum_take(s.drop_last(), i);
        assert(s.take(i) =~= s.drop_last().take(i));
    }
}

/// A pointwise cap on the values caps the sum.
pub proof fn lemma_fitness_sum_bounded(s: Seq<u64>, cap: int)
    requires
        forall|i: int| 0 <= i < s.len() ==> #[trigger] s[i] <= cap,
        cap >= 0,
    ensures
        0 <= fitness_sum(s) <= s.len() * cap,
    decreases s.len(),
{
    if s.len() == 0 {
    } else {
        lemma_fitness_sum_bounded(s.drop_last(), cap);
        assert((s.len() - 1) * cap + cap == s.len() * cap) by (nonlinear_arith);
    }
}

/// Every element is at most the sum (all values are non-negative).
pub proof fn lemma_fitness_elem_le_sum(s: Seq<u64>, i: int)
    requires
        0 <= i < s.len(),
    ensures
        s[i] <= fitness_sum(s),
    decreases s.len(),
{
    if i == s.len() - 1 {
        lemma_fitness_sum_take(s, s.len() - 1);
        assert(s.take(s.len() - 1) =~= s.drop_last());
    } else {
        lemma_fitness_elem_le_sum(s.drop_last(), i);
    }
}

/// A positive sum has a positive element.
pub proof fn lemma_fitness_sum_pos_exists(s: Seq<u64>)
    requires
        fitness_sum(s) > 0,
    ensures
        exists|i: int| 0 <= i < s.len() && #[trigger] s[i] > 0,
    decreases s.len(),
{
    if s.len() > 0 {
        if s.last() > 0 {
            assert(s[s.len() - 1] > 0);
        } else {
            lemma_fitness_sum_pos_exists(s.drop_last());
            let i = choose|i: int| 0 <= i < s.drop_last().len() && #[trigger] s.drop_last()[i]
                > 0;
            assert(s[i] > 0);
        }
    }
}

#[derive(Clone, Copy, PartialEq, Eq, Structural, Debug)]
pub struct Statistics {
    pub min_fitness: u64,
    pub max_fitness: u64,
    pub mean_fitness: u64,
}

impl Statistics {
    /// Summarizes a non-empty collection of fitness values; the mean is
    /// the floored quotient of the sum by the count.
    pub fn new(values: &Vec<u64>) -> (r: Statistics)
        requires
            values@.len() > 0,
            fitness_sum(values@) <= u64::MAX,
        ensures
            r.min_fitness == fitness_min(values@),
            r.max_fitness == fitness_max(values@),
            r.mean_fitness == fitness_sum(values@) / (values@.len() as int),
    {
        let mut min_v: u64 = values[0];
        let mut max_v: u64 = values[0];
        let mut sum: u64 = values[0];
        proof {
            let first = values@.take(1);
            assert(first.len() == 1);
            assert(first.drop_last() =~= Seq::<u64>::empty());
            assert(fitness_sum(first.drop_last()) == 0);
            assert(first.last() == values@[0]);
            assert(fitness_sum(first) == values@[0]);
            assert(fitness_min(first) == values@[0]);
            assert(fitness_max(first) == values@[0]);
            lemma_fitness_sum_take(values@, 1);
        }
        let mut i: usize = 1;
        while i < values.len()
            invariant
                1 <= i <= values@.len(),
                fitness_sum(values@) <= u64::MAX,
                min_v == fitness_min(values@.take(i as int)),
                max_v == fitness_max(values@.take(i as int)),
                sum == fitness_sum(values@.take(i as int)),
            decreases values@.len() - i,
        {
            let v = values[i];
            proof {
                assert(values@.take(i + 1).drop_last() =~= values@.take(i as int));
                assert(values@.take(i + 1).last() == values@[i as int]);
                lemma_fitness_sum_take(values@, i + 1);
            }
            if v < min_v {
                min_v = v;
            }
            if v > max_v {
                max_v = v;
            }
            sum = sum + v;
            i = i + 1;
        }
        proof {
            assert(values@.take(values@.len() as int) =~= values@);
        }
        Statistics {
            min_fitness: min_v,
            max_fitness: max_v,
            mean_fitness: sum / (values.len() as u64),
        }
    }

    /// The all-zero snapshot used when a species has no population.
    pub fn empty() -> (r: Statistics)
        ensures
            r.min_fitness == 0,
            r.max_fitness == 0,
            r.mean_fitness == 0,
    {
        Statistics { min_fitness: 0, max_fitness: 0, mean_fitness: 0 }
    }
}

} // verus!
