//! Individuals of a population and the fitness figures taken over them.
use vstd::prelude::*;
use crate::chromosome::Chromosome;

verus! {

/// Anything that reports a fitness, exposes its chromosome, and can be built
/// afresh from a chromosome.
pub trait Individual<G: Copy>: Sized {
    /// The fitness the individual reports.
    spec fn fitness_spec(&self) -> u32;

    /// The number of genes of the individual's chromosome.
    spec fn gene_count(&self) -> usize;

    /// The gene at position `i` of the individual's chromosome.
    spec fn gene(&self, i: usize) -> G;

    fn fitness(&self) -> (r: u32)
        ensures
            r == self.fitness_spec(),
    ;

    fn chromosome(&self) -> (r: &Chromosome<G>)
        ensures
            r@.len() == self.gene_count(),
            forall|i: int| 0 <= i < r@.len() ==> r@[i] == self.gene(i as usize),
    ;

    fn create(chromosome: Chromosome<G>) -> (r: Self)
        ensures
            r.gene_count() == chromosome@.len(),
            forall|i: int| 0 <= i < chromosome@.len() ==> r.gene(i as usize) == chromosome@[i],
    ;
}

/// The fitness of each individual, in order.
pub open spec fn fitnesses<G: Copy, I: Individual<G>>(population: Seq<I>) -> Seq<u32> {
    population.map_values(|x: I| x.fitness_spec())
}

/// The sum of `s`.
pub open spec fn total(s: Seq<u32>) -> int
    decreases s.len(),
{
    if s.len() == 0 {
        0
    } else {
        total(s.drop_last()) + s.last()
    }
}

/// The least element of a non-empty `s`.
pub open spec fn minimum(s: Seq<u32>) -> u32
    decreases s.len(),
{
    if s.len() <= 1 {
        s[0]
    } else if s.last() < minimum(s.drop_last()) {
        s.last()
    } else {
        minimum(s.drop_last())
    }
}

/// The greatest element of a non-empty `s`.
pub open spec fn maximum(s: Seq<u32>) -> u32
    decreases s.len(),
{
    if s.len() <= 1 {
        s[0]
    } else if s.last() > maximum(s.drop_last()) {
        s.last()
    } else {
        maximum(s.drop_last())
    }
}

/// Whether every chromosome of the population has `n` genes.
pub open spec fn all_of_length<G: Copy, I: Individual<G>>(population: Seq<I>, n: usize) -> bool {
    forall|i: int| 0 <= i < population.len() ==> (#[trigger] population[i]).gene_count() == n
}

/// A prefix's sum never exceeds the sum of a longer prefix.
pub proof fn lemma_total_prefix(s: Seq<u32>, i: int, j: int)
    requires
        0 <= i <= j <= s.len(),
    ensures
        total(s.subrange(0, i)) <= total(s.subrange(0, j)),
    decreases j - i,
{
    if i < j {
        lemma_total_prefix(s, i, j - 1);
        assert(s.subrange(0, j).drop_last() =~= s.subrange(0, j - 1));
    }
}

/// A sum is never negative, and is zero exactly when every element is zero.
pub proof fn lemma_total_zero(s: Seq<u32>)
    ensures
        total(s) >= 0,
        total(s) == 0 <==> forall|i: int| 0 <= i < s.len() ==> s[i] == 0,
    decreases s.len(),
{
    if s.len() > 0 {
        lemma_total_zero(s.drop_last());
        lemma_total_prefix(s, 0, s.len() - 1);
        assert(s.subrange(0, s.len() - 1) =~= s.drop_last());
        assert(s.subrange(0, 0) =~= Seq::<u32>::empty());
        if total(s) == 0 {
            assert forall|i: int| 0 <= i < s.len() implies s[i] == 0 by {
                if i < s.len() - 1 {
                    assert(s.drop_last()[i] == s[i]);
                }
            }
        } else {
            if forall|i: int| 0 <= i < s.len() ==> s[i] == 0 {
                assert forall|i: int| 0 <= i < s.drop_last().len() implies s.drop_last()[i] == 0 by {
                    assert(s.drop_last()[i] == s[i]);
                }
                assert(s[s.len() - 1] == 0);
            }
        }
    }
}

/// The sum of the population's fitness, or `None` where it exceeds
/// `u32::MAX`.
pub fn fitness_sum<G: Copy, I: Individual<G>>(population: &[I]) -> (r: Option<u32>)
    ensures
        r is Some <==> total(fitnesses(population@)) <= u32::MAX,
        r matches Some(t) ==> t == total(fitnesses(population@)),
{
    let ghost s = fitnesses(population@);
    let mut sum: u64 = 0;
    let mut i: usize = 0;
    while i < population.len()
        invariant
            s == fitnesses(population@),
            i <= population@.len(),
            sum == total(s.subrange(0, i as int)),
            sum <= u32::MAX,
        decreases population@.len() - i,
    {
        let f = population[i].fitness();
        proof {
            assert(s[i as int] == f);
            assert(s.subrange(0, i + 1).drop_last() =~= s.subrange(0, i as int));
        }
        sum = sum + f as u64;
        i = i + 1;
        if sum > 0xFFFF_FFFFu64 {
            proof {
                lemma_total_prefix(s, i as int, s.len() as int);
                assert(s.subrange(0, s.len() as int) =~= s);
            }
            return None;
        }
    }
    assert(s.subrange(0, i as int) =~= s);
    Some(sum as u32)
}

/// Summary figures of a population's fitness, taken before it is replaced.
#[derive(Clone, Copy, Debug, PartialEq, Eq, Structural)]
pub struct Statistics {
    pub min_fitness: u32,
    pub max_fitness: u32,
    pub sum_fitness: u64,
    pub size: usize,
}

/// The figures of a non-empty sequence of fitness values.
pub open spec fn statistics_of(s: Seq<u32>) -> Statistics {
    Statistics {
        min_fitness: minimum(s),
        max_fitness: maximum(s),
        sum_fitness: total(s) as u64,
        size: s.len() as usize,
    }
}

impl Statistics {
    /// The figures of a non-empty population whose fitness sum fits in `u32`.
    pub fn of<G: Copy, I: Individual<G>>(population: &[I]) -> (r: Statistics)
        requires
            population@.len() > 0,
            total(fitnesses(population@)) <= u32::MAX,
        ensures
            r == statistics_of(fitnesses(population@)),
    {
        let ghost s = fitnesses(population@);
        let sum_fitness: u64 = match fitness_sum(population) {
            Some(t) => t as u64,
            None => 0,
        };
        let first = population[0].fitness();
        let mut min_fitness: u32 = first;
        let mut max_fitness: u32 = first;
        let mut i: usize = 1;
        proof {
            assert(s[0] == first);
            assert(s.subrange(0, 1)[0] == s[0]);
        }
        while i < population.len()
            invariant
                s == fitnesses(population@),
                1 <= i <= population@.len(),
                min_fitness == minimum(s.subrange(0, i as int)),
                max_fitness == maximum(s.subrange(0, i as int)),
            decreases population@.len() - i,
        {
            let f = population[i].fitness();
            proof {
                assert(s[i as int] == f);
                assert(s.subrange(0, i + 1).drop_last() =~= s.subrange(0, i as int));
            }
            if f < min_fitness {
                min_fitness = f;
            }
            if f > max_fitness {
                max_fitness = f;
            }
            i = i + 1;
        }
        assert(s.subrange(0, i as int) =~= s);
        proof {
            lemma_total_zero(s);
        }
        Statistics { min_fitness, max_fitness, sum_fitness, size: population.len() }
    }
}

} // verus!
