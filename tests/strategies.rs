use genetic_algorithm::{
    uniform_combine, Chromosome, CrossoverMethod, GaussianMutation, Gene, Individual,
    MutationError, MutationMethod, RouletteWheelSelection, SelectionError, SelectionMethod,
    UniformCrossover,
};
use rand::SeedableRng;
use rand_chacha::ChaCha8Rng;
use std::collections::BTreeMap;

#[derive(Clone, Copy, Debug, PartialEq)]
struct Real(f32);

impl Gene for Real {
    fn is_zero(&self) -> bool {
        self.0 == 0.0
    }

    fn offset_spec(&self, negative: bool, coefficient: Self, magnitude: u32) -> Self {
        self.offset(negative, &coefficient, magnitude)
    }

    fn offset(&self, negative: bool, coefficient: &Self, magnitude: u32) -> Self {
        let sign = if negative { -1.0 } else { 1.0 };
        let fraction = magnitude as f32 * (1.0 / 16777216.0);
        Real(self.0 + sign * coefficient.0 * fraction)
    }
}

#[derive(Clone, Debug)]
struct TestIndividual {
    fitness: u32,
    chromosome: Chromosome<Real>,
}

impl TestIndividual {
    fn new(fitness: u32) -> Self {
        TestIndividual { fitness, chromosome: Chromosome::from_genes(vec![]) }
    }
}

impl Individual<Real> for TestIndividual {
    fn fitness_spec(&self) -> u32 {
        self.fitness
    }

    fn gene_count(&self) -> usize {
        self.chromosome.len()
    }

    fn gene(&self, i: usize) -> Real {
        self.chromosome.get(i)
    }

    fn fitness(&self) -> u32 {
        self.fitness
    }

    fn chromosome(&self) -> &Chromosome<Real> {
        &self.chromosome
    }

    fn create(chromosome: Chromosome<Real>) -> Self {
        TestIndividual { fitness: 0, chromosome }
    }
}

fn relative_eq(a: &[f32], b: &[f32]) -> bool {
    a.len() == b.len()
        && a.iter().zip(b).all(|(x, y)| {
            let diff = (x - y).abs();
            diff <= f32::EPSILON || diff <= f32::EPSILON * x.abs().max(y.abs())
        })
}

fn mutated(chance_numerator: u32, chance_denominator: u32, coeff: f32) -> Vec<f32> {
    let mut rng = ChaCha8Rng::from_seed(Default::default());
    let genes: Vec<Real> = vec![1.0, 2.0, 3.0, 4.0, 5.0].into_iter().map(Real).collect();
    let mut child = Chromosome::from_genes(genes);
    GaussianMutation::new(chance_numerator, chance_denominator, Real(coeff))
        .unwrap()
        .mutate(&mut rng, &mut child);
    child.into_genes().into_iter().map(|g| g.0).collect()
}

const ORIGINAL: [f32; 5] = [1.0, 2.0, 3.0, 4.0, 5.0];

#[test]
fn roulette_wheel_selection() {
    let mut rng = ChaCha8Rng::from_seed(Default::default());
    let population = vec![
        TestIndividual::new(2),
        TestIndividual::new(1),
        TestIndividual::new(4),
        TestIndividual::new(3),
    ];
    let mut actual_histogram = BTreeMap::new();
    for _ in 0..1000 {
        let fitness = RouletteWheelSelection.select(&mut rng, &population).fitness() as i32;
        *actual_histogram.entry(fitness).or_insert(0) += 1;
    }
    let expected_histogram = BTreeMap::from_iter([(1, 98), (2, 202), (3, 278), (4, 422)]);
    assert_eq!(actual_histogram, expected_histogram);
}

#[test]
fn uniform_crossover() {
    let mut rng = ChaCha8Rng::from_seed(Default::default());
    let parent_a = Chromosome::from_genes((0..=100).map(|n| n as f32).collect());
    let parent_b = Chromosome::from_genes((0..=100).map(|n| -n as f32).collect());
    let child = UniformCrossover.crossover(&mut rng, &parent_a, &parent_b);
    let child = child.iter();
    let diff_a = child.iter().zip(parent_a.iter()).filter(|(c, p)| **c != *p).count();
    let diff_b = child.iter().zip(parent_b.iter()).filter(|(c, p)| **c != *p).count();
    assert_eq!(diff_a, 49);
    assert_eq!(diff_b, 51);
}

#[test]
fn lib_does_not_change_the_original_chromosome() {
    assert!(relative_eq(&mutated(0, 1, 0.0), &ORIGINAL));
}

#[test]
fn zero_chance_with_coefficient_does_not_change_the_original_chromosome() {
    assert!(relative_eq(&mutated(0, 1, 0.5), &ORIGINAL));
}

#[test]
fn half_chance_zero_coefficient_does_not_change_the_original_chromosome() {
    assert!(relative_eq(&mutated(1, 2, 0.0), &ORIGINAL));
}

#[test]
fn slightly_changes_the_original_chromosome() {
    assert!(!relative_eq(&mutated(1, 2, 1.0), &ORIGINAL));
}

#[test]
fn full_chance_zero_coefficient_does_not_change_the_original_chromosome() {
    assert!(relative_eq(&mutated(1, 1, 0.0), &ORIGINAL));
}

#[test]
fn entirely_changes_the_original_chromosome() {
    let actual = mutated(1, 1, 1.0);
    assert!(!relative_eq(&actual, &ORIGINAL));
    assert!(actual.iter().zip(ORIGINAL.iter()).all(|(a, o)| a != o));
}

#[test]
fn mutation_rejects_a_chance_above_one() {
    assert_eq!(
        GaussianMutation::new(3, 2, Real(0.5)).err(),
        Some(MutationError::InvalidParameter)
    );
    assert_eq!(
        GaussianMutation::new(0, 0, Real(0.5)).err(),
        Some(MutationError::InvalidParameter)
    );
    assert!(GaussianMutation::new(1, 1, Real(0.5)).is_ok());
}

#[test]
fn mutation_keeps_the_length() {
    let mut rng = ChaCha8Rng::from_seed(Default::default());
    let mut child = Chromosome::from_genes(vec![Real(0.0); 7]);
    GaussianMutation::new(1, 2, Real(0.3)).unwrap().mutate(&mut rng, &mut child);
    assert_eq!(child.len(), 7);
}

#[test]
fn mutation_shift_is_bounded_by_the_coefficient() {
    let actual = mutated(1, 1, 0.25);
    for (a, o) in actual.iter().zip(ORIGINAL.iter()) {
        assert!((a - o).abs() <= 0.25);
    }
}

#[test]
fn combine_follows_the_coins() {
    let a = Chromosome::from_genes(vec![1, 2, 3]);
    let b = Chromosome::from_genes(vec![-1, -2, -3]);
    let child = uniform_combine(&vec![true, false, true], &a, &b);
    assert_eq!(child.iter(), vec![1, -2, 3]);
}

#[test]
fn crossover_keeps_the_length_and_picks_parent_genes() {
    let mut rng = ChaCha8Rng::from_seed(Default::default());
    let a = Chromosome::from_genes(vec![1u8; 9]);
    let b = Chromosome::from_genes(vec![2u8; 9]);
    let child = UniformCrossover.crossover(&mut rng, &a, &b).iter();
    assert_eq!(child.len(), 9);
    assert!(child.iter().all(|g| *g == 1 || *g == 2));
}

#[test]
fn selection_of_an_empty_population_fails() {
    let mut rng = ChaCha8Rng::from_seed(Default::default());
    let population: Vec<TestIndividual> = vec![];
    let r = RouletteWheelSelection.try_select(&mut rng, &population);
    assert_eq!(r.err(), Some(SelectionError::EmptyPopulation));
}

#[test]
fn selection_with_zero_fitness_everywhere_fails() {
    let mut rng = ChaCha8Rng::from_seed(Default::default());
    let population = vec![TestIndividual::new(0), TestIndividual::new(0)];
    let r = RouletteWheelSelection.try_select(&mut rng, &population);
    assert_eq!(r.err(), Some(SelectionError::DegenerateWeights));
}

#[test]
fn selection_never_picks_zero_fitness() {
    let mut rng = ChaCha8Rng::from_seed(Default::default());
    let population = vec![TestIndividual::new(0), TestIndividual::new(5), TestIndividual::new(0)];
    for _ in 0..100 {
        let picked = RouletteWheelSelection.try_select(&mut rng, &population).unwrap();
        assert_eq!(picked.fitness(), 5);
    }
}
