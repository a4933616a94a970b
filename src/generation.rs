//! The generation counter that decides when a stepped simulation evolves,
//! and the choice of the best performer of a generation.
use vstd::prelude::*;

verus! {

/// The number of steps a generation lasts: the step after the last of them
/// completes the generation.
pub const GENERATION_LENGTH: usize = 2500;

/// Whether the step taken at counter value `age` completes the generation.
pub open spec fn fires(age: nat) -> bool {
    age + 1 > GENERATION_LENGTH
}

/// The counter value after one step taken at `age`.
pub open spec fn next_age(age: nat) -> nat {
    if fires(age) {
        0
    } else {
        age + 1
    }
}

/// The counter value after `n` steps from a fresh counter.
pub open spec fn age_after(n: nat) -> nat
    decreases n,
{
    if n == 0 {
        0
    } else {
        next_age(age_after((n - 1) as nat))
    }
}

/// Counts the steps of the current generation.
#[derive(Clone, Copy, Debug, PartialEq, Eq, Structural)]
pub struct GenerationCounter {
    age: usize,
}

impl GenerationCounter {
    /// The steps counted so far in the current generation.
    pub closed spec fn age_spec(&self) -> nat {
        self.age as nat
    }

    /// The counter never runs past the generation's length.
    pub open spec fn wf(&self) -> bool {
        self.age_spec() <= GENERATION_LENGTH
    }

    /// A counter at the start of a generation.
    pub fn new() -> (r: Self)
        ensures
            r.age_spec() == 0,
            r.wf(),
    {
        GenerationCounter { age: 0 }
    }

    /// The steps counted so far in the current generation.
    pub fn age(&self) -> (r: usize)
        ensures
            r == self.age_spec(),
    {
        self.age
    }

    /// Counts one step; returns whether it completed the generation, in
    /// which case the counter is back at zero.
    pub fn tick(&mut self) -> (fired: bool)
        requires
            old(self).wf(),
        ensures
            fired == fires(old(self).age_spec()),
            final(self).age_spec() == next_age(old(self).age_spec()),
            final(self).wf(),
    {
        self.age = self.age + 1;
        if self.age > GENERATION_LENGTH {
            self.age = 0;
            true
        } else {
            false
        }
    }
}

/// From a fresh counter, none of the first `GENERATION_LENGTH` steps
/// completes a generation, the step after them does, and it leaves the
/// counter at zero.
pub proof fn lemma_generation_boundary()
    ensures
        forall|n: nat| n < GENERATION_LENGTH ==> !fires(#[trigger] age_after(n)),
        fires(age_after(GENERATION_LENGTH as nat)),
        age_after(GENERATION_LENGTH as nat + 1) == 0,
{
    assert forall|n: nat| n <= GENERATION_LENGTH implies #[trigger] age_after(n) == n by {
        lemma_age_after_counts(n);
    }
    lemma_age_after_counts(GENERATION_LENGTH as nat);
}

/// Before the boundary, the counter equals the number of steps taken.
proof fn lemma_age_after_counts(n: nat)
    requires
        n <= GENERATION_LENGTH,
    ensures
        age_after(n) == n,
    decreases n,
{
    if n > 0 {
        lemma_age_after_counts((n - 1) as nat);
    }
}

/// The position of the first member with the greatest satiation, where that
/// satiation is positive; `None` where every member has satiation zero.
pub fn best_performer(satiations: &Vec<u32>) -> (r: Option<usize>)
    ensures
        r is None <==> forall|j: int| 0 <= j < satiations@.len() ==> satiations@[j] == 0,
        r matches Some(i) ==> {
            &&& i < satiations@.len()
            &&& satiations@[i as int] > 0
            &&& forall|j: int| 0 <= j < satiations@.len() ==> satiations@[j] <= satiations@[i as int]
            &&& forall|j: int| 0 <= j < i ==> satiations@[j] < satiations@[i as int]
        },
{
    let mut best: Option<usize> = None;
    let mut top: u32 = 0;
    let mut k: usize = 0;
    while k < satiations.len()
        invariant
            k <= satiations@.len(),
            best is None ==> top == 0 && forall|j: int| 0 <= j < k ==> satiations@[j] == 0,
            best matches Some(i) ==> {
                &&& i < k
                &&& top == satiations@[i as int]
                &&& top > 0
                &&& forall|j: int| 0 <= j < k ==> satiations@[j] <= top
                &&& forall|j: int| 0 <= j < i ==> satiations@[j] < top
            },
        decreases satiations@.len() - k,
    {
        if satiations[k] > top {
            top = satiations[k];
            best = Some(k);
        }
        k = k + 1;
    }
    best
}

} // verus!
