//! A chromosome: the flat, ordered vector of genes (fixed-point network
//! weights) that the genetic algorithm breeds.  Every gene is bounded by
//! `GENE_LIMIT` in magnitude.

use vstd::prelude::*;
use crate::GENE_LIMIT;

verus! {

pub struct Chromosome {
    genes: Vec<i64>,
}

/// Every gene of the sequence within `[-GENE_LIMIT, GENE_LIMIT]`.
pub open spec fn genes_bounded(s: Seq<i64>) -> bool {
    forall|i: int| 0 <= i < s.len() ==> -GENE_LIMIT <= #[trigger] s[i] <= GENE_LIMIT
}

impl View for Chromosome {
    type V = Seq<i64>;

    closed spec fn view(&self) -> Seq<i64> {
        self.genes@
    }
}

impl Chromosome {
    /// All genes in bounds.
    pub open spec fn wf(&self) -> bool {
        genes_bounded(self@)
    }

    pub fn new(genes: Vec<i64>) -> (r: Self)
        requires
            genes_bounded(genes@),
        ensures
            r@ == genes@,
            r.wf(),
    {
        Chromosome { genes }
    }

    pub fn len(&self) -> (r: usize)
        ensures
            r == self@.len(),
    {
        self.genes.len()
    }

    pub fn gene(&self, i: usize) -> (r: i64)
        requires
            i < self@.len(),
        ensures
            r == self@[i as int],
    {
        self.genes[i]
    }

    pub fn set_gene(&mut self, i: usize, v: i64)
        requires
            i < old(self)@.len(),
            -GENE_LIMIT <= v <= GENE_LIMIT,
        ensures
            final(self)@ == old(self)@.update(i as int, v),
            old(self).wf() ==> final(self).wf(),
    {
        let slot = &mut self.genes[i];
        *slot = v;
    }

    /// An element-for-element copy.
    pub fn duplicate(&self) -> (r: Self)
        ensures
            r@ == self@,
    {
        let mut genes: Vec<i64> = Vec::new();
        let mut i: usize = 0;
        while i < self.genes.len()
            invariant
                i <= self.genes.len(),
                genes@ == self.genes@.take(i as int),
            decreases self.genes.len() - i,
        {
            genes.push(self.genes[i]);
            i = i + 1;
            proof {
                assert(genes@ =~= self.genes@.take(i as int));
            }
        }
        proof {
            assert(genes@ =~= self.genes@);
        }
        Chromosome { genes }
    }
}

} // verus!
