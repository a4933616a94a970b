//! The simulation controller: steps a world and, at each generation
//! boundary, replaces its agents through the genetic algorithm.
use vstd::prelude::*;
use crate::chromosome::Chromosome;
use crate::crossover::CrossoverMethod;
use crate::engine::{bred_from, genes_of, inherits, inherits_at, GeneticAlgorithm};
use crate::generation::{best_performer, fires, next_age, GenerationCounter, GENERATION_LENGTH};
use crate::individual::{
    all_of_length, fitness_sum, fitnesses, lemma_total_zero, statistics_of, total, Individual,
    Statistics,
};
use crate::mutation::MutationMethod;
use crate::random::Random;
use crate::selection::SelectionMethod;

verus! {

/// The surroundings the agents live in: it moves them each step, and places
/// new agents and its resources afresh. Neither changes how many agents
/// there are, and placing keeps each agent's chromosome.
pub trait World<G: Copy, I: Individual<G>> {
    /// One step: interaction, decision, then movement of every agent. An
    /// agent keeps its chromosome and its fitness never goes down.
    fn advance(&mut self, rng: &mut Random, agents: &mut Vec<I>)
        ensures
            advanced(old(agents)@, final(agents)@),
    ;

    /// Gives each agent a fresh physical placement and places the world's
    /// resources afresh.
    fn place(&mut self, rng: &mut Random, agents: &mut Vec<I>)
        ensures
            final(agents)@.len() == old(agents)@.len(),
            forall|k: int|
                0 <= k < old(agents)@.len() ==> (#[trigger] final(agents)@[k]).gene_count()
                    == old(agents)@[k].gene_count() && forall|i: usize|
                    i < old(agents)@[k].gene_count() ==> final(agents)@[k].gene(i) == old(
                        agents,
                    )@[k].gene(i),
    ;

    /// A freshly drawn agent; the world is unchanged.
    fn random_individual(&self, rng: &mut Random) -> I;
}

/// Whether `after` is `before` after the world's move: as many agents, each
/// with the same genes and at least the fitness it had.
pub open spec fn advanced<G: Copy, I: Individual<G>>(before: Seq<I>, after: Seq<I>) -> bool {
    &&& after.len() == before.len()
    &&& forall|k: int|
        0 <= k < before.len() ==> #[trigger] same_genes(after[k], before[k])
            && after[k].fitness_spec() >= before[k].fitness_spec()
}

/// Whether the population `p` is non-empty, of one chromosome length, and
/// holds an agent with positive fitness.
pub open spec fn fed<G: Copy, I: Individual<G>>(p: Seq<I>) -> bool {
    &&& p.len() > 0
    &&& all_of_length(p, p[0].gene_count())
    &&& exists|b: int| 0 <= b < p.len() && #[trigger] p[b].fitness_spec() > 0
}

/// The world's moves compose.
pub proof fn lemma_advanced_trans<G: Copy, I: Individual<G>>(a: Seq<I>, b: Seq<I>, c: Seq<I>)
    requires
        advanced(a, b),
        advanced(b, c),
    ensures
        advanced(a, c),
{
    assert forall|k: int| 0 <= k < a.len() implies #[trigger] same_genes(c[k], a[k])
        && c[k].fitness_spec() >= a[k].fitness_spec() by {
        assert(same_genes(b[k], a[k]));
        assert(same_genes(c[k], b[k]));
    }
}

/// A fed population stays fed through the world's move, so evolving it can
/// fail only on a fitness sum above `u32::MAX`.
pub proof fn lemma_fed_evolves<G: Copy, I: Individual<G>>(before: Seq<I>, after: Seq<I>)
    requires
        fed(before),
        advanced(before, after),
    ensures
        boundary_error(after) is None || boundary_error(after) == Some(
            SimulationError::FitnessOverflow,
        ),
        total(fitnesses(after)) <= u32::MAX ==> boundary_error(after) is None,
{
    assert(same_genes(after[0], before[0]));
    assert forall|k: int| 0 <= k < after.len() implies (#[trigger] after[k]).gene_count()
        == after[0].gene_count() by {
        assert(same_genes(after[k], before[k]));
        assert(before[k].gene_count() == before[0].gene_count());
    }
    let b = choose|b: int| 0 <= b < before.len() && #[trigger] before[b].fitness_spec() > 0;
    assert(same_genes(after[b], before[b]));
    lemma_total_zero(fitnesses(after));
    assert(fitnesses(after)[b] > 0);
}

/// The number of agents that `choose_best` puts in the world.
pub const BEST_COPIES: usize = 40;

/// Why a generation boundary could not be crossed.
#[derive(Clone, Copy, Debug, PartialEq, Eq, Structural)]
pub enum SimulationError {
    /// The world has no agent.
    EmptyPopulation,
    /// Every agent has fitness zero.
    DegenerateWeights,
    /// The agents' chromosomes differ in length.
    LengthMismatch,
    /// The agents' fitness sums to more than `u32::MAX`.
    FitnessOverflow,
}

/// The reason, if any, why the population `p` cannot be evolved.
pub open spec fn boundary_error<G: Copy, I: Individual<G>>(p: Seq<I>) -> Option<SimulationError> {
    if p.len() == 0 {
        Some(SimulationError::EmptyPopulation)
    } else if !all_of_length(p, p[0].gene_count()) {
        Some(SimulationError::LengthMismatch)
    } else if total(fitnesses(p)) > u32::MAX {
        Some(SimulationError::FitnessOverflow)
    } else if total(fitnesses(p)) == 0 {
        Some(SimulationError::DegenerateWeights)
    } else {
        None
    }
}

/// What evolving the population `p` gives: its fitness figures, or the
/// reason it cannot be evolved.
pub open spec fn boundary_outcome<G: Copy, I: Individual<G>>(
    p: Seq<I>,
    r: Result<Statistics, SimulationError>,
) -> bool {
    match boundary_error(p) {
        Some(e) => r == Err::<Statistics, SimulationError>(e),
        None => r == Ok::<Statistics, SimulationError>(statistics_of(fitnesses(p))),
    }
}

/// What a step taken at counter value `age` gives, where the world's move
/// left the population `p`.
pub open spec fn step_outcome<G: Copy, I: Individual<G>>(
    age: nat,
    p: Seq<I>,
    r: Result<Option<Statistics>, SimulationError>,
) -> bool {
    if !fires(age) {
        r == Ok::<Option<Statistics>, SimulationError>(None)
    } else {
        match boundary_error(p) {
            Some(e) => r == Err::<Option<Statistics>, SimulationError>(e),
            None => r == Ok::<Option<Statistics>, SimulationError>(
                Some(statistics_of(fitnesses(p))),
            ),
        }
    }
}

/// Whether every chromosome of `population` has the length of the first.
fn lengths_agree<G: Copy, I: Individual<G>>(population: &Vec<I>) -> (r: bool)
    requires
        population@.len() > 0,
    ensures
        r == all_of_length(population@, population@[0].gene_count()),
{
    let n = population[0].chromosome().len();
    let mut i: usize = 1;
    while i < population.len()
        invariant
            population@.len() > 0,
            n == population@[0].gene_count(),
            1 <= i <= population@.len(),
            forall|j: int| 0 <= j < i ==> (#[trigger] population@[j]).gene_count() == n,
        decreases population@.len() - i,
    {
        if population[i].chromosome().len() != n {
            return false;
        }
        i = i + 1;
    }
    true
}

/// `count` fresh individuals, each created from the genes of `chromosome`.
fn copies_of<G: Copy, I: Individual<G>>(chromosome: &Chromosome<G>, count: usize) -> (r: Vec<I>)
    ensures
        r@.len() == count,
        forall|k: int|
            0 <= k < count ==> (#[trigger] r@[k]).gene_count() == chromosome@.len() && forall|
                i: usize,
            |
                i < chromosome@.len() ==> r@[k].gene(i) == chromosome@[i as int],
{
    let mut out: Vec<I> = Vec::with_capacity(count);
    let mut i: usize = 0;
    while i < count
        invariant
            i <= count,
            out@.len() == i,
            forall|k: int|
                0 <= k < i ==> (#[trigger] out@[k]).gene_count() == chromosome@.len() && forall|
                    j: usize,
                |
                    j < chromosome@.len() ==> out@[k].gene(j) == chromosome@[j as int],
        decreases count - i,
    {
        let ghost before = out@;
        let fresh = I::create(chromosome.duplicate());
        proof {
            assert forall|j: usize| j < chromosome@.len() implies fresh.gene(j) == chromosome@[j as int] by {
                assert(0 <= j as int);
            }
        }
        out.push(fresh);
        i = i + 1;
        assert forall|k: int| 0 <= k < i implies (#[trigger] out@[k]).gene_count()
            == chromosome@.len() && forall|j: usize|
            j < chromosome@.len() ==> out@[k].gene(j) == chromosome@[j as int] by {
            if k < i - 1 {
                assert(out@[k] == before[k]);
            }
        }
    }
    out
}

/// Agents in a world, stepped and evolved once per generation.
pub struct Simulation<I, W, S, C, M> {
    agents: Vec<I>,
    world: W,
    ga: GeneticAlgorithm<S, C, M>,
    counter: GenerationCounter,
}

impl<I, W, S, C, M> Simulation<I, W, S, C, M> {
    /// The agents, in order.
    pub closed spec fn agents_spec(&self) -> Seq<I> {
        self.agents@
    }

    /// The steps taken in the current generation.
    pub closed spec fn age_spec(&self) -> nat {
        self.counter.age_spec()
    }

    /// The genetic algorithm in use.
    pub closed spec fn ga(&self) -> GeneticAlgorithm<S, C, M> {
        self.ga
    }

    /// The step counter stays within the generation.
    pub open spec fn wf(&self) -> bool {
        self.age_spec() <= GENERATION_LENGTH
    }

    /// A simulation of `agents` in `world`, at the start of a generation.
    pub fn new(agents: Vec<I>, world: W, ga: GeneticAlgorithm<S, C, M>) -> (r: Self)
        ensures
            r.agents_spec() == agents@,
            r.age_spec() == 0,
            r.wf(),
            r.ga() == ga,
    {
        Simulation { agents, world, ga, counter: GenerationCounter::new() }
    }

    /// The world, to be read.
    pub fn world(&self) -> &W {
        &self.world
    }

    /// The agents, to be read.
    pub fn agents(&self) -> (r: &Vec<I>)
        ensures
            r@ == self.agents_spec(),
    {
        &self.agents
    }

    /// The steps taken in the current generation.
    pub fn age(&self) -> (r: usize)
        ensures
            r == self.age_spec(),
    {
        self.counter.age()
    }

    /// Replaces the agents by the offspring the genetic algorithm breeds
    /// from them, placed afresh, and returns the fitness figures of the
    /// replaced agents. Fails, leaving the agents as they were, where they
    /// are empty, differ in chromosome length, have a fitness sum above
    /// `u32::MAX` or all have fitness zero.
    pub fn evolve<G: Copy>(&mut self, rng: &mut Random) -> (r: Result<Statistics, SimulationError>)
        where
            I: Individual<G>,
            W: World<G, I>,
            S: SelectionMethod,
            C: CrossoverMethod<G>,
            M: MutationMethod<G>,
        requires
            old(self).ga().mutation().wf(),
        ensures
            boundary_outcome(old(self).agents_spec(), r),
            r is Err ==> final(self).agents_spec() == old(self).agents_spec(),
            r is Ok && old(self).ga().mutation().keeps_genes() ==> forall|k: int|
                0 <= k < final(self).agents_spec().len() ==> inherits(
                    old(self).agents_spec(),
                    #[trigger] final(self).agents_spec()[k],
                ),
            r is Ok ==> forall|k: int|
                0 <= k < final(self).agents_spec().len() ==> bred_from(
                    old(self).agents_spec(),
                    #[trigger] final(self).agents_spec()[k],
                    old(self).ga().mutation(),
                ),
            final(self).agents_spec().len() == old(self).agents_spec().len(),
            final(self).age_spec() == 0,
            final(self).ga() == old(self).ga(),
    {
        self.counter = GenerationCounter::new();
        let ghost p = self.agents@;
        if self.agents.len() == 0 {
            return Err(SimulationError::EmptyPopulation);
        }
        if !lengths_agree(&self.agents) {
            return Err(SimulationError::LengthMismatch);
        }
        match fitness_sum(self.agents.as_slice()) {
            None => {
                return Err(SimulationError::FitnessOverflow);
            },
            Some(0) => {
                return Err(SimulationError::DegenerateWeights);
            },
            Some(_) => {},
        }
        proof {
            lemma_total_zero(fitnesses(p));
        }
        match self.ga.evolve(rng, self.agents.as_slice()) {
            Ok((next, stats)) => {
                let mut next = next;
                let ghost bred = next@;
                self.world.place(rng, &mut next);
                proof {
                    assert forall|k: int| 0 <= k < next@.len() implies bred_from(
                        p,
                        #[trigger] next@[k],
                        self.ga.mutation(),
                    ) by {
                        assert(bred_from(p, bred[k], self.ga.mutation()));
                        assert(genes_of(next@[k]) =~= genes_of(bred[k]));
                    }
                    if self.ga.mutation().keeps_genes() {
                        assert forall|k: int| 0 <= k < next@.len() implies inherits(
                            p,
                            #[trigger] next@[k],
                        ) by {
                            assert(inherits(p, bred[k]));
                            assert forall|j: usize| j < next@[k].gene_count() implies #[trigger] inherits_at(
                                p,
                                next@[k],
                                j,
                            ) by {
                                assert(inherits_at(p, bred[k], j));
                            }
                        }
                    }
                }
                self.agents = next;
                Ok(stats)
            },
            Err(_) => {
                proof {
                    let i = choose|i: int| 0 <= i < p.len() && fitnesses(p)[i] != 0;
                    assert(p[i].fitness_spec() != 0);
                }
                Err(SimulationError::DegenerateWeights)
            },
        }
    }

    /// Advances the world one step. Where the step completes the
    /// generation, the agents are evolved, the counter goes back to zero,
    /// and the fitness figures of the replaced agents are returned;
    /// otherwise the result is `Ok(None)`. The number of agents never
    /// changes.
    pub fn step<G: Copy>(&mut self, rng: &mut Random) -> (r: Result<
        Option<Statistics>,
        SimulationError,
    >) where I: Individual<G>, W: World<G, I>, S: SelectionMethod, C: CrossoverMethod<G>, M: MutationMethod<G>
        requires
            old(self).wf(),
            old(self).ga().mutation().wf(),
        ensures
            final(self).wf(),
            final(self).ga() == old(self).ga(),
            final(self).age_spec() == next_age(old(self).age_spec()),
            final(self).agents_spec().len() == old(self).agents_spec().len(),
            fires(old(self).age_spec()) && fed(old(self).agents_spec()) ==> (r matches Ok(Some(_))
                || r == Err::<Option<Statistics>, SimulationError>(
                SimulationError::FitnessOverflow,
            )),
            exists|p: Seq<I>|
                advanced(old(self).agents_spec(), p) && #[trigger] step_outcome(
                    old(self).age_spec(),
                    p,
                    r,
                ) && (r matches Ok(Some(_)) || final(self).agents_spec() == p) && (r matches Ok(
                    Some(_),
                ) && old(self).ga().mutation().keeps_genes() ==> forall|k: int|
                    0 <= k < p.len() ==> inherits(p, #[trigger] final(self).agents_spec()[k])),
    {
        self.world.advance(rng, &mut self.agents);
        let ghost p = self.agents@;
        proof {
            if fed(old(self).agents_spec()) {
                lemma_fed_evolves(old(self).agents_spec(), p);
            }
        }
        if !self.counter.tick() {
            assert(step_outcome(old(self).age_spec(), p, Ok(None)));
            assert(self.agents@ == p);
            return Ok(None);
        }
        let r = match self.evolve(rng) {
            Ok(stats) => Ok(Some(stats)),
            Err(e) => Err(e),
        };
        assert(step_outcome(old(self).age_spec(), p, r));
        r
    }

    /// Steps until a generation completes; returns the fitness figures of
    /// the agents it replaced, or the reason they could not be evolved.
    pub fn train<G: Copy>(&mut self, rng: &mut Random) -> (r: Result<Statistics, SimulationError>)
        where
            I: Individual<G>,
            W: World<G, I>,
            S: SelectionMethod,
            C: CrossoverMethod<G>,
            M: MutationMethod<G>,
        requires
            old(self).wf(),
            old(self).ga().mutation().wf(),
        ensures
            final(self).wf(),
            final(self).ga() == old(self).ga(),
            final(self).age_spec() == 0,
            final(self).agents_spec().len() == old(self).agents_spec().len(),
            fed(old(self).agents_spec()) ==> (r is Ok || r == Err::<Statistics, SimulationError>(
                SimulationError::FitnessOverflow,
            )),
            exists|p: Seq<I>|
                advanced(old(self).agents_spec(), p) && #[trigger] boundary_outcome(p, r) && (
                r is Err ==> final(self).agents_spec() == p) && (r is Ok
                    && old(self).ga().mutation().keeps_genes() ==> forall|k: int|
                    0 <= k < p.len() ==> inherits(p, #[trigger] final(self).agents_spec()[k])),
    {
        loop
            invariant
                self.wf(),
                self.ga() == old(self).ga(),
                self.ga().mutation().wf(),
                advanced(old(self).agents_spec(), self.agents_spec()),
            decreases GENERATION_LENGTH - self.age_spec(),
        {
            let ghost age = self.age_spec();
            let ghost current = self.agents_spec();
            let stepped = self.step(rng);
            let ghost p = choose|p: Seq<I>|
                advanced(current, p) && #[trigger] step_outcome(age, p, stepped) && (stepped matches Ok(
                    Some(_),
                ) || self.agents_spec() == p) && (stepped matches Ok(Some(_))
                    && self.ga().mutation().keeps_genes() ==> forall|k: int|
                    0 <= k < p.len() ==> inherits(p, #[trigger] self.agents_spec()[k]));
            proof {
                lemma_advanced_trans(old(self).agents_spec(), current, p);
                if fed(old(self).agents_spec()) {
                    lemma_fed_evolves(old(self).agents_spec(), p);
                }
            }
            match stepped {
                Ok(Some(stats)) => {
                    assert(boundary_outcome(p, Ok::<Statistics, SimulationError>(stats)));
                    return Ok(stats);
                },
                Ok(None) => {},
                Err(e) => {
                    assert(boundary_outcome(p, Err::<Statistics, SimulationError>(e)));
                    return Err(e);
                },
            }
        }
    }

    /// Fills the world with `BEST_COPIES` agents, placed afresh, that all
    /// carry the chromosome of the first agent with the greatest positive
    /// fitness or, where every agent has fitness zero, that of a freshly
    /// drawn agent. The step count is left as it was. The world must hold
    /// at least two agents.
    pub fn choose_best<G: Copy>(&mut self, rng: &mut Random)
        where
            I: Individual<G>,
            W: World<G, I>,
        requires
            old(self).wf(),
            old(self).agents_spec().len() > 1,
        ensures
            final(self).wf(),
            final(self).ga() == old(self).ga(),
            final(self).age_spec() == old(self).age_spec(),
            final(self).agents_spec().len() == BEST_COPIES,
            forall|k: int|
                0 <= k < BEST_COPIES ==> #[trigger] same_genes(
                    final(self).agents_spec()[k],
                    final(self).agents_spec()[0],
                ),
            (exists|b: int|
                0 <= b < old(self).agents_spec().len()
                    && old(self).agents_spec()[b].fitness_spec() > 0) ==> exists|b: int|
                best_at(fitnesses(old(self).agents_spec()), b) && forall|k: int|
                    0 <= k < BEST_COPIES ==> #[trigger] same_genes(
                        final(self).agents_spec()[k],
                        old(self).agents_spec()[b],
                    ),
    {
        let drawn = self.world.random_individual(rng);
        let mut satiations: Vec<u32> = Vec::with_capacity(self.agents.len());
        let mut k: usize = 0;
        while k < self.agents.len()
            invariant
                k <= self.agents@.len(),
                satiations@ == fitnesses(self.agents@).subrange(0, k as int),
            decreases self.agents@.len() - k,
        {
            satiations.push(self.agents[k].fitness());
            k = k + 1;
            assert(satiations@ =~= fitnesses(self.agents@).subrange(0, k as int));
        }
        assert(satiations@ =~= fitnesses(self.agents@));
        let ghost before = self.agents@;
        let best = best_performer(&satiations);
        let source: &Chromosome<G> = match best {
            Some(i) => self.agents[i].chromosome(),
            None => drawn.chromosome(),
        };
        let ghost genes = source@;
        let mut next: Vec<I> = copies_of(source, BEST_COPIES);
        let ghost created = next@;
        self.world.place(rng, &mut next);
        self.agents = next;
        proof {
            if exists|b: int| 0 <= b < before.len() && before[b].fitness_spec() > 0 {
                let b = choose|b: int| 0 <= b < before.len() && before[b].fitness_spec() > 0;
                assert(fitnesses(before)[b] != 0);
                let i = best->Some_0 as int;
                assert forall|k: int| 0 <= k < BEST_COPIES implies #[trigger] same_genes(
                    self.agents@[k],
                    before[i],
                ) by {
                    assert(created[k].gene_count() == genes.len());
                    assert forall|j: usize| j < self.agents@[k].gene_count() implies self.agents@[
                        k
                    ].gene(j) == before[i].gene(j) by {
                        assert(created[k].gene(j) == genes[j as int]);
                        assert(genes[j as int] == before[i].gene(j as int as usize));
                    }
                }
                assert(best_at(fitnesses(before), i));
            }
            assert forall|k: int| 0 <= k < BEST_COPIES implies #[trigger] same_genes(
                self.agents@[k],
                self.agents@[0],
            ) by {
                assert(created[k].gene_count() == genes.len());
                assert(created[0].gene_count() == genes.len());
                assert forall|j: usize| j < self.agents@[k].gene_count() implies self.agents@[
                    k
                ].gene(j) == self.agents@[0].gene(j) by {
                    assert(created[k].gene(j) == genes[j as int]);
                    assert(created[0].gene(j) == genes[j as int]);
                }
            }
        }
    }
}

/// Whether position `b` of `s` holds the first greatest element, and it is
/// positive.
pub open spec fn best_at(s: Seq<u32>, b: int) -> bool {
    &&& 0 <= b < s.len()
    &&& s[b] > 0
    &&& forall|j: int| 0 <= j < s.len() ==> s[j] <= s[b]
    &&& forall|j: int| 0 <= j < b ==> s[j] < s[b]
}

/// Whether two individuals carry the same genes.
pub open spec fn same_genes<G: Copy, I: Individual<G>>(x: I, y: I) -> bool {
    x.gene_count() == y.gene_count() && forall|i: usize| i < x.gene_count() ==> x.gene(i) == y.gene(i)
}

} // verus!
