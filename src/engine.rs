//! The engine that replaces a population by its offspring, one generation
//! at a time.
use vstd::prelude::*;
use crate::chromosome::Chromosome;
use crate::crossover::CrossoverMethod;
use crate::individual::{
    all_of_length, fitnesses, lemma_total_zero, statistics_of, total, Individual, Statistics,
};
use crate::mutation::MutationMethod;
use crate::random::Random;
use crate::selection::SelectionMethod;

verus! {

/// Whether gene `j` of `child` is the gene at the same position of some
/// member of `population` with positive fitness.
pub open spec fn inherits_at<G: Copy, I: Individual<G>>(population: Seq<I>, child: I, j: usize) -> bool {
    exists|q: int|
        0 <= q < population.len() && population[q].fitness_spec() > 0 && #[trigger] population[q].gene(
            j,
        ) == child.gene(j)
}

/// Whether each gene of `child` is the gene at the same position of some
/// member of `population` with positive fitness.
pub open spec fn inherits<G: Copy, I: Individual<G>>(population: Seq<I>, child: I) -> bool {
    forall|j: usize| j < child.gene_count() ==> #[trigger] inherits_at(population, child, j)
}

/// The genes of `x`, in order.
pub open spec fn genes_of<G: Copy, I: Individual<G>>(x: I) -> Seq<G> {
    Seq::new(x.gene_count() as nat, |j: int| x.gene(j as usize))
}

/// Whether each gene of `c` is the gene at that position of `a` or of `b`,
/// and `c` is as long as `a`'s chromosome.
pub open spec fn mixes<G: Copy, I: Individual<G>>(a: I, b: I, c: Seq<G>) -> bool {
    &&& c.len() == a.gene_count()
    &&& forall|j: int| 0 <= j < c.len() ==> #[trigger] c[j] == a.gene(j as usize) || c[j] == b.gene(
        j as usize,
    )
}

/// Whether `child` is a result that `mutation` admits for a mix of two
/// members of `population` with positive fitness.
pub open spec fn bred_from<G: Copy, I: Individual<G>, M: MutationMethod<G>>(
    population: Seq<I>,
    child: I,
    mutation: M,
) -> bool {
    exists|c: Seq<G>, qa: int, qb: int|
        #![trigger mutation.admits(c, genes_of(child)), mixes(population[qa], population[qb], c)]
        0 <= qa < population.len() && 0 <= qb < population.len() && population[qa].fitness_spec()
            > 0 && population[qb].fitness_spec() > 0 && mixes(population[qa], population[qb], c)
            && mutation.admits(c, genes_of(child))
}

/// Why a generation could not be evolved.
#[derive(Clone, Copy, Debug, PartialEq, Eq, Structural)]
pub enum EvolveError {
    /// The population holds no individual.
    EmptyPopulation,
    /// Every individual has fitness zero, so no parent can be selected.
    DegenerateWeights,
}

/// A genetic algorithm made of one selection, one crossover and one mutation
/// strategy.
pub struct GeneticAlgorithm<S, C, M> {
    selection_method: S,
    crossover_method: C,
    mutation_method: M,
}

impl<S, C, M> GeneticAlgorithm<S, C, M> {
    /// The selection strategy in use.
    pub closed spec fn selection(&self) -> S {
        self.selection_method
    }

    /// The crossover strategy in use.
    pub closed spec fn crossover(&self) -> C {
        self.crossover_method
    }

    /// The mutation strategy in use.
    pub closed spec fn mutation(&self) -> M {
        self.mutation_method
    }

    /// The algorithm with the given strategies.
    pub fn new(selection_method: S, crossover_method: C, mutation_method: M) -> (r: Self)
        ensures
            r.selection() == selection_method,
            r.crossover() == crossover_method,
            r.mutation() == mutation_method,
    {
        GeneticAlgorithm { selection_method, crossover_method, mutation_method }
    }

    /// Builds the next generation: for each slot, in order, selects two
    /// parents from `population`, crosses them over, mutates the child and
    /// creates a fresh individual from it. Also returns the fitness figures of
    /// `population`. Fails with `EmptyPopulation` on an empty population and
    /// with `DegenerateWeights` where every individual has fitness zero.
    pub fn evolve<G: Copy, I: Individual<G>>(&self, rng: &mut Random, population: &[I]) -> (r:
        Result<(Vec<I>, Statistics), EvolveError>) where
        S: SelectionMethod,
        C: CrossoverMethod<G>,
        M: MutationMethod<G>,

        requires
            self.mutation().wf(),
            total(fitnesses(population@)) <= u32::MAX,
            population@.len() > 0 ==> all_of_length(population@, population@[0].gene_count()),
        ensures
            population@.len() == 0 <==> r matches Err(EvolveError::EmptyPopulation),
            (population@.len() > 0 && forall|i: int|
                0 <= i < population@.len() ==> (#[trigger] population@[i]).fitness_spec() == 0)
                <==> r matches Err(EvolveError::DegenerateWeights),
            r matches Ok((next, stats)) ==> {
                &&& next@.len() == population@.len()
                &&& all_of_length(next@, population@[0].gene_count())
                &&& stats == statistics_of(fitnesses(population@))
                &&& self.mutation().keeps_genes() ==> forall|k: int|
                    0 <= k < next@.len() ==> inherits(population@, #[trigger] next@[k])
                &&& forall|k: int|
                    0 <= k < next@.len() ==> bred_from(population@, #[trigger] next@[k], self.mutation())
            },
    {
        if population.len() == 0 {
            return Err(EvolveError::EmptyPopulation);
        }
        let ghost s = fitnesses(population@);
        let ghost len = population@[0].gene_count();
        proof {
            lemma_total_zero(s);
            assert forall|i: int| 0 <= i < population@.len() implies s[i] == (
            #[trigger] population@[i]).fitness_spec() by {}
        }
        let stats = Statistics::of(population);
        if stats.sum_fitness == 0 {
            return Err(EvolveError::DegenerateWeights);
        }
        let n = population.len();
        let mut next: Vec<I> = Vec::with_capacity(n);
        let mut k: usize = 0;
        while k < n
            invariant
                n == population@.len(),
                n > 0,
                self.mutation().wf(),
                0 < total(fitnesses(population@)) <= u32::MAX,
                all_of_length(population@, len),
                len == population@[0].gene_count(),
                k <= n,
                next@.len() == k,
                all_of_length(next@, len),
                self.mutation().keeps_genes() ==> forall|i: int|
                    0 <= i < k ==> inherits(population@, #[trigger] next@[i]),
                forall|i: int|
                    0 <= i < k ==> bred_from(population@, #[trigger] next@[i], self.mutation()),
            decreases n - k,
        {
            let parent_a = self.selection_method.select(rng, population);
            let parent_b = self.selection_method.select(rng, population);
            let ghost qa = choose|i: int|
                0 <= i < population@.len() && population@[i] == *parent_a
                    && parent_a.fitness_spec() > 0;
            let ghost qb = choose|i: int|
                0 <= i < population@.len() && population@[i] == *parent_b
                    && parent_b.fitness_spec() > 0;
            let a: &Chromosome<G> = parent_a.chromosome();
            let b: &Chromosome<G> = parent_b.chromosome();
            let mut child = self.crossover_method.crossover(rng, a, b);
            let ghost crossed = child@;
            self.mutation_method.mutate(rng, &mut child);
            let ghost mutated = child@;
            let individual = I::create(child);
            proof {
                if self.mutation().keeps_genes() {
                    assert forall|j: usize| j < individual.gene_count() implies #[trigger] inherits_at(
                        population@,
                        individual,
                        j,
                    ) by {
                        let ji = j as int;
                        assert(individual.gene(ji as usize) == mutated[ji]);
                        assert(mutated[ji] == crossed[ji]);
                        if crossed[ji] == a@[ji] {
                            assert(population@[qa].gene(j) == individual.gene(j));
                        } else {
                            assert(population@[qb].gene(j) == individual.gene(j));
                        }
                        assert(0 <= qb < population@.len() && population@[qb].fitness_spec() > 0);
                        assert(0 <= qa < population@.len() && population@[qa].fitness_spec() > 0);
                    }
                    assert(inherits(population@, individual));
                }
                assert(mixes(population@[qa], population@[qb], crossed)) by {
                    assert forall|j: int| 0 <= j < crossed.len() implies #[trigger] crossed[j]
                        == population@[qa].gene(j as usize) || crossed[j] == population@[qb].gene(
                        j as usize,
                    ) by {
                        assert(a@[j] == parent_a.gene(j as usize));
                        assert(b@[j] == parent_b.gene(j as usize));
                    }
                }
                assert(genes_of(individual) =~= mutated);
                assert(self.mutation().admits(crossed, genes_of(individual)));
                assert(bred_from(population@, individual, self.mutation()));
            }
            let ghost before = next@;
            next.push(individual);
            k = k + 1;
            proof {
                assert forall|i: int| 0 <= i < next@.len() implies (
                #[trigger] next@[i]).gene_count() == len by {
                    if i < k - 1 {
                        assert(next@[i] == before[i]);
                    }
                }
                assert forall|i: int| 0 <= i < next@.len() implies bred_from(
                    population@,
                    #[trigger] next@[i],
                    self.mutation(),
                ) by {
                    if i < k - 1 {
                        assert(next@[i] == before[i]);
                    } else {
                        assert(next@[i] == individual);
                    }
                }
                if self.mutation().keeps_genes() {
                    assert forall|i: int| 0 <= i < next@.len() implies inherits(
                        population@,
                        #[trigger] next@[i],
                    ) by {
                        if i < k - 1 {
                            assert(next@[i] == before[i]);
                        } else {
                            assert(next@[i] == individual);
                        }
                    }
                }
            }
        }
        Ok((next, stats))
    }
}

} // verus!
