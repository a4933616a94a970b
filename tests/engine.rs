use genetic_algorithm::{
    best_performer, Chromosome, EvolveError, GaussianMutation, Gene, GeneticAlgorithm,
    GenerationCounter, Individual, RouletteWheelSelection, Statistics, UniformCrossover,
    GENERATION_LENGTH,
};
use rand::SeedableRng;
use rand_chacha::ChaCha8Rng;

#[derive(Clone, Copy, Debug, PartialEq)]
struct Real(f32);

impl Gene for Real {
    fn is_zero(&self) -> bool {
        self.0 == 0.0
    }

    fn offset_spec(&self, negative: bool, coefficient: Self, magnitude: u32) -> Self {
        self.offset(negative, &coefficient, magnitude)
    }

    fn offset(&self, negative: bool, coefficient: &Self, magnitude: u32) -> Self {
        let sign = if negative { -1.0 } else { 1.0 };
        let fraction = magnitude as f32 * (1.0 / 16777216.0);
        Real(self.0 + sign * coefficient.0 * fraction)
    }
}

#[derive(Clone, Debug)]
struct Creature {
    chromosome: Chromosome<Real>,
}

impl Individual<Real> for Creature {
    fn fitness_spec(&self) -> u32 {
        self.fitness()
    }

    fn gene_count(&self) -> usize {
        self.chromosome.len()
    }

    fn gene(&self, i: usize) -> Real {
        self.chromosome.get(i)
    }

    fn fitness(&self) -> u32 {
        let sum: f32 = self.chromosome.iter().into_iter().map(|g| g.0).sum();
        sum.max(0.0).round() as u32
    }

    fn chromosome(&self) -> &Chromosome<Real> {
        &self.chromosome
    }

    fn create(chromosome: Chromosome<Real>) -> Self {
        Creature { chromosome }
    }
}

fn creature(genes: &[f32]) -> Creature {
    Creature::create(Chromosome::from_genes(genes.iter().map(|g| Real(*g)).collect()))
}

fn start() -> Vec<Creature> {
    vec![
        creature(&[0.0, 0.0, 0.0]),
        creature(&[1.0, 1.0, 1.0]),
        creature(&[1.0, 2.0, 1.0]),
        creature(&[1.0, 2.0, 4.0]),
    ]
}

fn genes_of(population: &[Creature]) -> Vec<Vec<f32>> {
    population.iter().map(|c| c.chromosome.iter().into_iter().map(|g| g.0).collect()).collect()
}

fn run_ten_generations() -> Vec<Vec<f32>> {
    let mut rng = ChaCha8Rng::from_seed(Default::default());
    let ga = GeneticAlgorithm::new(
        RouletteWheelSelection,
        UniformCrossover,
        GaussianMutation::new(1, 2, Real(0.5)).unwrap(),
    );
    let mut population = start();
    for _ in 0..10 {
        let (next, _) = ga.evolve(&mut rng, &population).unwrap();
        assert_eq!(next.len(), population.len());
        population = next;
    }
    genes_of(&population)
}

#[test]
fn evolve_is_deterministic_for_a_seed() {
    let first = run_ten_generations();
    let second = run_ten_generations();
    assert_eq!(first, second);
    assert_eq!(first.len(), 4);
    assert!(first.iter().all(|genes| genes.len() == 3));
}

#[test]
fn evolve_reports_statistics_of_the_replaced_population() {
    let mut rng = ChaCha8Rng::from_seed(Default::default());
    let ga = GeneticAlgorithm::new(
        RouletteWheelSelection,
        UniformCrossover,
        GaussianMutation::new(0, 1, Real(0.5)).unwrap(),
    );
    let (next, stats) = ga.evolve(&mut rng, &start()).unwrap();
    assert_eq!(next.len(), 4);
    assert_eq!(
        stats,
        Statistics { min_fitness: 0, max_fitness: 7, sum_fitness: 14, size: 4 }
    );
}

#[test]
fn evolve_without_mutation_takes_every_gene_from_a_fit_parent() {
    let mut rng = ChaCha8Rng::from_seed(Default::default());
    let ga = GeneticAlgorithm::new(
        RouletteWheelSelection,
        UniformCrossover,
        GaussianMutation::new(0, 1, Real(0.5)).unwrap(),
    );
    let population = vec![creature(&[0.0, 0.0]), creature(&[1.0, 2.0]), creature(&[3.0, 4.0])];
    let (next, _) = ga.evolve(&mut rng, &population).unwrap();
    for genes in genes_of(&next) {
        assert!(genes[0] == 1.0 || genes[0] == 3.0);
        assert!(genes[1] == 2.0 || genes[1] == 4.0);
    }
}

#[test]
fn evolve_of_an_empty_population_fails() {
    let mut rng = ChaCha8Rng::from_seed(Default::default());
    let ga = GeneticAlgorithm::new(
        RouletteWheelSelection,
        UniformCrossover,
        GaussianMutation::new(1, 2, Real(0.5)).unwrap(),
    );
    let population: Vec<Creature> = vec![];
    assert_eq!(ga.evolve(&mut rng, &population).err(), Some(EvolveError::EmptyPopulation));
}

#[test]
fn evolve_with_zero_fitness_everywhere_fails() {
    let mut rng = ChaCha8Rng::from_seed(Default::default());
    let ga = GeneticAlgorithm::new(
        RouletteWheelSelection,
        UniformCrossover,
        GaussianMutation::new(1, 2, Real(0.5)).unwrap(),
    );
    let population = vec![creature(&[0.0, 0.0]), creature(&[-1.0, 0.0])];
    assert_eq!(ga.evolve(&mut rng, &population).err(), Some(EvolveError::DegenerateWeights));
}

#[test]
fn generation_fires_only_one_step_past_its_length() {
    let mut counter = GenerationCounter::new();
    for _ in 0..GENERATION_LENGTH {
        assert!(!counter.tick());
    }
    assert_eq!(counter.age(), 2500);
    assert!(counter.tick());
    assert_eq!(counter.age(), 0);
    assert!(!counter.tick());
    assert_eq!(counter.age(), 1);
}

#[test]
fn best_performer_is_the_first_with_the_top_satiation() {
    assert_eq!(best_performer(&vec![3, 7, 2, 7]), Some(1));
    assert_eq!(best_performer(&vec![0, 0, 0]), None);
    assert_eq!(best_performer(&vec![]), None);
    assert_eq!(best_performer(&vec![0, 1]), Some(1));
}
