//! A generic genetic-algorithm engine: fitness-proportionate selection,
//! uniform crossover and Gaussian-style mutation over fixed-length genomes,
//! together with the controller of a stepped simulation that evolves its
//! population once per generation.

pub mod chromosome;
pub mod crossover;
pub mod engine;
pub mod generation;
pub mod individual;
pub mod mutation;
pub mod random;
pub mod selection;
pub mod simulation;

pub use chromosome::Chromosome;
pub use crossover::{uniform_combine, CrossoverMethod, UniformCrossover};
pub use engine::{EvolveError, GeneticAlgorithm};
pub use generation::{best_performer, GenerationCounter, GENERATION_LENGTH};
pub use individual::{Individual, Statistics};
pub use mutation::{GaussianMutation, Gene, MutationError, MutationMethod, Perturbation, MAGNITUDE_SCALE};
pub use random::Random;
pub use selection::{RouletteWheelSelection, SelectionError, SelectionMethod};
pub use simulation::{Simulation, SimulationError, World, BEST_COPIES};
