//! Selection strategies: picking parents out of a population.
use vstd::prelude::*;
use crate::individual::{fitness_sum, fitnesses, lemma_total_zero, total, Individual};
use crate::random::Random;
use rand::distributions::WeightedError;

verus! {

#[verifier::external_type_specification]
#[verifier::external_body]
pub struct ExWeightedError(WeightedError);

/// Whether the population's fitness sums to at most `u32::MAX`.
pub open spec fn weights_fit<G: Copy, I: Individual<G>>(population: Seq<I>) -> bool {
    total(fitnesses(population)) <= u32::MAX
}

/// Whether the population is non-empty with a positive fitness sum.
pub open spec fn has_positive_weight<G: Copy, I: Individual<G>>(population: Seq<I>) -> bool {
    population.len() > 0 && total(fitnesses(population)) > 0
}

/// Whether `x` is a member of the population with positive fitness.
pub open spec fn picked_with_weight<G: Copy, I: Individual<G>>(population: Seq<I>, x: I) -> bool {
    exists|i: int| 0 <= i < population.len() && population[i] == x && x.fitness_spec() > 0
}

/// Relies on `rand::seq::SliceRandom::choose_weighted` with each individual's
/// fitness as its weight: the pick is an item of positive weight; an empty
/// slice or one whose weights are all zero gives an error. The weights are
/// summed in `u32`, hence the bound on their sum.
#[verifier::external_body]
fn choose_weighted<'a, G: Copy, I: Individual<G>>(
    rng: &mut Random,
    population: &'a [I],
) -> (r: Result<&'a I, WeightedError>)
    requires
        weights_fit(population@),
    ensures
        r is Ok <==> has_positive_weight(population@),
        r matches Ok(x) ==> picked_with_weight(population@, *x),
{
    rand::seq::SliceRandom::choose_weighted(population, rng, |x| x.fitness())
}

/// Why no individual could be selected.
#[derive(Clone, Copy, Debug, PartialEq, Eq, Structural)]
pub enum SelectionError {
    /// The population holds no individual.
    EmptyPopulation,
    /// Every individual has fitness zero, so no weighted choice exists.
    DegenerateWeights,
}

/// A way of picking one member of a non-empty population whose total fitness
/// is positive. The same member may be picked again by a later call.
pub trait SelectionMethod {
    fn select<'a, G: Copy, I: Individual<G>>(
        &self,
        rng: &mut Random,
        population: &'a [I],
    ) -> (r: &'a I)
        requires
            population@.len() > 0,
            0 < total(fitnesses(population@)) <= u32::MAX,
        ensures
            exists|i: int|
                0 <= i < population@.len() && population@[i] == *r && r.fitness_spec() > 0,
    ;
}

/// Fitness-proportionate selection: each member is picked with probability
/// proportional to its fitness.
#[derive(Clone, Copy, Debug)]
pub struct RouletteWheelSelection;

impl RouletteWheelSelection {
    /// Picks a member with probability proportional to its fitness. Fails
    /// with `EmptyPopulation` on an empty population and with
    /// `DegenerateWeights` where every member has fitness zero.
    pub fn try_select<'a, G: Copy, I: Individual<G>>(
        &self,
        rng: &mut Random,
        population: &'a [I],
    ) -> (r: Result<&'a I, SelectionError>)
        requires
            total(fitnesses(population@)) <= u32::MAX,
        ensures
            population@.len() == 0 <==> r matches Err(SelectionError::EmptyPopulation),
            (population@.len() > 0 && forall|i: int|
                0 <= i < population@.len() ==> (#[trigger] population@[i]).fitness_spec() == 0)
                <==> r matches Err(SelectionError::DegenerateWeights),
            r matches Ok(x) ==> exists|i: int|
                0 <= i < population@.len() && population@[i] == *x && x.fitness_spec() > 0,
    {
        proof {
            let s = fitnesses(population@);
            lemma_total_zero(s);
            assert forall|i: int| 0 <= i < population@.len() implies s[i] == (
            #[trigger] population@[i]).fitness_spec() by {}
        }
        if population.len() == 0 {
            return Err(SelectionError::EmptyPopulation);
        }
        match fitness_sum(population) {
            Some(0) => {
                return Err(SelectionError::DegenerateWeights);
            },
            _ => {},
        }
        match choose_weighted(rng, population) {
            Ok(x) => Ok(x),
            Err(_) => {
                proof {
                    assert(false);
                }
                Err(SelectionError::DegenerateWeights)
            },
        }
    }
}

impl SelectionMethod for RouletteWheelSelection {
    fn select<'a, G: Copy, I: Individual<G>>(
        &self,
        rng: &mut Random,
        population: &'a [I],
    ) -> (r: &'a I) {
        proof {
            lemma_total_zero(fitnesses(population@));
        }
        match self.try_select(rng, population) {
            Ok(x) => x,
            Err(_) => {
                proof {
                    let i = choose|i: int|
                        0 <= i < population@.len() && fitnesses(population@)[i] != 0;
                    assert(population@[i].fitness_spec() != 0);
                }
                &population[0]
            },
        }
    }
}

} // verus!
