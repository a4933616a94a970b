//! Crossover strategies: combining two parent chromosomes into a child.
use vstd::prelude::*;
use crate::chromosome::Chromosome;
use crate::random::{gen_ratio, Random};

verus! {

/// A way of combining two parents of equal length into one child of that
/// length, each of whose genes is the gene of one parent at that position.
pub trait CrossoverMethod<G: Copy> {
    fn crossover(
        &self,
        rng: &mut Random,
        parent_a: &Chromosome<G>,
        parent_b: &Chromosome<G>,
    ) -> (r: Chromosome<G>)
        requires
            parent_a@.len() == parent_b@.len(),
        ensures
            r@.len() == parent_a@.len(),
            forall|i: int|
                0 <= i < r@.len() ==> r@[i] == parent_a@[i] || r@[i] == parent_b@[i],
    ;
}

/// Uniform crossover: one fair coin per position decides which parent the
/// child's gene comes from.
#[derive(Clone, Copy, Debug)]
pub struct UniformCrossover;

/// The child whose gene at each position comes from `parent_a` where the
/// coin at that position is `true`, and from `parent_b` where it is `false`.
pub fn uniform_combine<G: Copy>(
    coins: &Vec<bool>,
    parent_a: &Chromosome<G>,
    parent_b: &Chromosome<G>,
) -> (r: Chromosome<G>)
    requires
        parent_a@.len() == parent_b@.len(),
        coins@.len() == parent_a@.len(),
    ensures
        r@.len() == parent_a@.len(),
        forall|i: int|
            0 <= i < r@.len() ==> r@[i] == (if coins@[i] {
                parent_a@[i]
            } else {
                parent_b@[i]
            }),
{
    let n = parent_a.len();
    let mut genes: Vec<G> = Vec::with_capacity(n);
    let mut i: usize = 0;
    while i < n
        invariant
            n == parent_a@.len(),
            parent_a@.len() == parent_b@.len(),
            coins@.len() == n,
            i <= n,
            genes@.len() == i,
            forall|j: int|
                0 <= j < i ==> genes@[j] == (if coins@[j] {
                    parent_a@[j]
                } else {
                    parent_b@[j]
                }),
        decreases n - i,
    {
        if coins[i] {
            genes.push(parent_a.get(i));
        } else {
            genes.push(parent_b.get(i));
        }
        i = i + 1;
    }
    Chromosome::from_genes(genes)
}

/// Flips `n` fair coins, in order.
fn flip_coins(rng: &mut Random, n: usize) -> (r: Vec<bool>)
    ensures
        r@.len() == n,
{
    let mut coins: Vec<bool> = Vec::with_capacity(n);
    let mut i: usize = 0;
    while i < n
        invariant
            i <= n,
            coins@.len() == i,
        decreases n - i,
    {
        coins.push(gen_ratio(rng, 1, 2));
        i = i + 1;
    }
    coins
}

impl<G: Copy> CrossoverMethod<G> for UniformCrossover {
    fn crossover(
        &self,
        rng: &mut Random,
        parent_a: &Chromosome<G>,
        parent_b: &Chromosome<G>,
    ) -> (r: Chromosome<G>) {
        let coins = flip_coins(rng, parent_a.len());
        uniform_combine(&coins, parent_a, parent_b)
    }
}

} // verus!
