//! The genome: an ordered, fixed-length sequence of genes.
use vstd::prelude::*;

verus! {

/// An ordered sequence of genes. No operation changes its length but
/// construction; genes change only one position at a time.
#[derive(Clone, Debug)]
pub struct Chromosome<G> {
    genes: Vec<G>,
}

impl<G> View for Chromosome<G> {
    type V = Seq<G>;

    closed spec fn view(&self) -> Seq<G> {
        self.genes@
    }
}

impl<G: Copy> Chromosome<G> {
    /// A chromosome holding `genes` in their order.
    pub fn from_genes(genes: Vec<G>) -> (r: Self)
        ensures
            r@ == genes@,
    {
        Chromosome { genes }
    }

    /// The number of genes.
    pub fn len(&self) -> (r: usize)
        ensures
            r == self@.len(),
    {
        self.genes.len()
    }

    /// The gene at `index`.
    pub fn get(&self, index: usize) -> (r: G)
        requires
            index < self@.len(),
        ensures
            r == self@[index as int],
    {
        self.genes[index]
    }

    /// Replaces the gene at `index`, leaving every other gene as it was.
    pub fn set(&mut self, index: usize, gene: G)
        requires
            index < old(self)@.len(),
        ensures
            final(self)@ == old(self)@.update(index as int, gene),
    {
        self.genes.set(index, gene);
    }

    /// A copy of the genes, in order, to iterate over.
    pub fn iter(&self) -> (r: Vec<G>)
        ensures
            r@ == self@,
    {
        let mut out: Vec<G> = Vec::with_capacity(self.genes.len());
        let mut i: usize = 0;
        while i < self.genes.len()
            invariant
                i <= self.genes@.len(),
                out@ == self.genes@.subrange(0, i as int),
            decreases self.genes@.len() - i,
        {
            out.push(self.genes[i]);
            i = i + 1;
            assert(out@ =~= self.genes@.subrange(0, i as int));
        }
        assert(out@ =~= self.genes@);
        out
    }

    /// A chromosome with the same genes.
    pub fn duplicate(&self) -> (r: Self)
        ensures
            r@ == self@,
    {
        Chromosome { genes: self.iter() }
    }

    /// Gives the genes back, in order.
    pub fn into_genes(self) -> (r: Vec<G>)
        ensures
            r@ == self@,
    {
        self.genes
    }
}

} // verus!
