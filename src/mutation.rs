//! Mutation strategies: random in-place changes to a chromosome.
use vstd::prelude::*;
use crate::chromosome::Chromosome;
use crate::random::{gen_ratio, next_u32, Random};

verus! {

/// The exclusive bound of a perturbation's magnitude: a magnitude `m` stands
/// for the uniform fraction `m / MAGNITUDE_SCALE` in [0, 1).
pub const MAGNITUDE_SCALE: u32 = 0x100_0000;

/// A gene that can be shifted by a signed multiple of a coefficient.
pub trait Gene: Copy {
    /// Whether the gene is the additive zero.
    spec fn is_zero(&self) -> bool;

    /// The gene shifted by `coefficient × magnitude / MAGNITUDE_SCALE`,
    /// downwards where `negative` holds and upwards otherwise.
    spec fn offset_spec(&self, negative: bool, coefficient: Self, magnitude: u32) -> Self;

    fn offset(&self, negative: bool, coefficient: &Self, magnitude: u32) -> (r: Self)
        requires
            magnitude < MAGNITUDE_SCALE,
        ensures
            r == self.offset_spec(negative, *coefficient, magnitude),
            coefficient.is_zero() ==> r == *self,
    ;
}

/// The absolute value of `x`.
pub open spec fn abs(x: int) -> int {
    if x < 0 {
        -x
    } else {
        x
    }
}

/// `v` limited to the range of `i64`.
pub open spec fn saturate(v: int) -> i64 {
    if v < i64::MIN {
        i64::MIN
    } else if v > i64::MAX {
        i64::MAX
    } else {
        v as i64
    }
}

/// Integer genes: a shift is `|coefficient| × magnitude / MAGNITUDE_SCALE`
/// rounded down, and the result saturates at the bounds of `i64`.
impl Gene for i64 {
    open spec fn is_zero(&self) -> bool {
        *self == 0
    }

    open spec fn offset_spec(&self, negative: bool, coefficient: i64, magnitude: u32) -> i64 {
        let shift = abs(coefficient as int) * magnitude as int / MAGNITUDE_SCALE as int;
        saturate(
            if negative {
                *self as int - shift
            } else {
                *self as int + shift
            },
        )
    }

    fn offset(&self, negative: bool, coefficient: &i64, magnitude: u32) -> (r: i64) {
        let wide: i128 = *coefficient as i128;
        let size: u128 = if wide < 0 {
            (0 - wide) as u128
        } else {
            wide as u128
        };
        assert(size as int == abs(*coefficient as int));
        assert(size * (magnitude as u128) <= 0x8000_0000_0000_0000u128 * 0x100_0000u128) by (nonlinear_arith)
            requires
                size <= 0x8000_0000_0000_0000u128,
                magnitude < 0x100_0000u32,
        ;
        let product: u128 = size * (magnitude as u128);
        let shift: u128 = product / 0x100_0000u128;
        assert(size == 0 ==> product == 0) by (nonlinear_arith)
            requires
                product == size * (magnitude as u128),
        ;
        assert(product as int == abs(*coefficient as int) * magnitude as int);
        assert(shift as int == abs(*coefficient as int) * magnitude as int / MAGNITUDE_SCALE as int);
        assert(shift <= 0x8000_0000_0000_0000u128) by (nonlinear_arith)
            requires
                product <= 0x8000_0000_0000_0000u128 * 0x100_0000u128,
                shift == product / 0x100_0000u128,
        ;
        let value: i128 = if negative {
            *self as i128 - shift as i128
        } else {
            *self as i128 + shift as i128
        };
        if value < i64::MIN as i128 {
            i64::MIN
        } else if value > i64::MAX as i128 {
            i64::MAX
        } else {
            value as i64
        }
    }
}

/// An integer gene moves by at most the absolute value of the coefficient.
pub proof fn lemma_offset_within_coefficient(gene: i64, negative: bool, coefficient: i64, magnitude: u32)
    requires
        magnitude < MAGNITUDE_SCALE,
    ensures
        abs(gene.offset_spec(negative, coefficient, magnitude) as int - gene as int) <= abs(
            coefficient as int,
        ),
{
    let c = abs(coefficient as int);
    let m = magnitude as int;
    assert(c * m / 0x100_0000 <= c) by (nonlinear_arith)
        requires
            c >= 0,
            0 <= m < 0x100_0000,
    ;
    assert(c * m / 0x100_0000 >= 0) by (nonlinear_arith)
        requires
            c >= 0,
            0 <= m,
    ;
}

/// A way of changing a chromosome in place without changing its length.
pub trait MutationMethod<G: Copy> {
    /// Whether the method's parameters are valid.
    spec fn wf(&self) -> bool;

    /// Whether a call leaves every gene as it was, whatever is drawn.
    spec fn keeps_genes(&self) -> bool;

    /// Whether `after` is one of the outcomes the method may give for
    /// `before`.
    spec fn admits(&self, before: Seq<G>, after: Seq<G>) -> bool;

    fn mutate(&self, rng: &mut Random, child: &mut Chromosome<G>)
        requires
            self.wf(),
        ensures
            final(child)@.len() == old(child)@.len(),
            self.keeps_genes() ==> final(child)@ == old(child)@,
            self.admits(old(child)@, final(child)@),
    ;
}

/// One drawn change of a single gene.
#[derive(Clone, Copy, Debug)]
pub struct Perturbation {
    pub negative: bool,
    pub magnitude: u32,
}

/// Why a mutation strategy could not be built.
#[derive(Clone, Copy, Debug, PartialEq, Eq, Structural)]
pub enum MutationError {
    /// The chance is not a ratio in [0, 1].
    InvalidParameter,
}

/// Gaussian-style mutation: each gene is, with a fixed chance, shifted by a
/// random fraction of a coefficient in a random direction.
#[derive(Clone, Copy, Debug)]
pub struct GaussianMutation<G> {
    chance_numerator: u32,
    chance_denominator: u32,
    coefficient: G,
}

/// Whether the magnitude of `p`, if any, lies below `MAGNITUDE_SCALE`.
pub open spec fn in_scale(p: Option<Perturbation>) -> bool {
    p matches Some(q) ==> q.magnitude < MAGNITUDE_SCALE
}

/// The gene `gene` after the perturbation `p`, if any.
pub open spec fn perturbed<G: Gene>(gene: G, p: Option<Perturbation>, coefficient: G) -> G {
    match p {
        Some(q) => gene.offset_spec(q.negative, coefficient, q.magnitude),
        None => gene,
    }
}

impl<G: Gene> GaussianMutation<G> {
    /// The chance that a gene is perturbed, as numerator and denominator.
    pub closed spec fn chance(&self) -> (nat, nat) {
        (self.chance_numerator as nat, self.chance_denominator as nat)
    }

    /// The largest size of a perturbation.
    pub closed spec fn coefficient_spec(&self) -> G {
        self.coefficient
    }

    /// A mutation that perturbs each gene with chance
    /// `chance_numerator / chance_denominator`, by at most `coefficient`.
    /// Fails with `InvalidParameter` exactly where that is no ratio in [0, 1].
    pub fn new(chance_numerator: u32, chance_denominator: u32, coefficient: G) -> (r: Result<
        Self,
        MutationError,
    >)
        ensures
            (chance_denominator == 0 || chance_numerator > chance_denominator) <==> r
                == Err::<Self, MutationError>(MutationError::InvalidParameter),
            r matches Ok(m) ==> m.wf() && m.chance() == (
                chance_numerator as nat,
                chance_denominator as nat,
            ) && m.coefficient_spec() == coefficient,
    {
        if chance_denominator == 0 || chance_numerator > chance_denominator {
            Err(MutationError::InvalidParameter)
        } else {
            Ok(GaussianMutation { chance_numerator, chance_denominator, coefficient })
        }
    }

    /// Draws the change of each of `n` genes in order: a fair sign, then the
    /// chance, then, where the chance came up, the magnitude: the upper 24
    /// bits of a 32-bit draw, as a uniform fraction of `MAGNITUDE_SCALE`.
    pub fn draw_perturbations(&self, rng: &mut Random, n: usize) -> (r: Vec<Option<Perturbation>>)
        requires
            self.wf(),
        ensures
            r@.len() == n,
            forall|i: int| 0 <= i < n ==> in_scale(r@[i]),
            self.chance().0 == 0 ==> forall|i: int| 0 <= i < n ==> r@[i] is None,
            self.chance().0 == self.chance().1 ==> forall|i: int| 0 <= i < n ==> r@[i] is Some,
    {
        let mut plan: Vec<Option<Perturbation>> = Vec::with_capacity(n);
        let mut i: usize = 0;
        while i < n
            invariant
                self.wf(),
                i <= n,
                plan@.len() == i,
                forall|j: int| 0 <= j < i ==> in_scale(plan@[j]),
                self.chance().0 == 0 ==> forall|j: int| 0 <= j < i ==> plan@[j] is None,
                self.chance().0 == self.chance().1 ==> forall|j: int| 0 <= j < i ==> plan@[j] is Some,
            decreases n - i,
        {
            let negative = gen_ratio(rng, 1, 2);
            if gen_ratio(rng, self.chance_numerator, self.chance_denominator) {
                let bits = next_u32(rng);
                let magnitude = bits >> 8u32;
                assert(bits >> 8u32 < 0x100_0000u32) by (bit_vector);
                plan.push(Some(Perturbation { negative, magnitude }));
            } else {
                plan.push(None);
            }
            i = i + 1;
        }
        plan
    }

    /// Applies the drawn perturbations to `child`, one per gene.
    pub fn apply_perturbations(&self, plan: &Vec<Option<Perturbation>>, child: &mut Chromosome<G>)
        requires
            plan@.len() == old(child)@.len(),
            forall|i: int|
                0 <= i < plan@.len() ==> in_scale(plan@[i]),
        ensures
            final(child)@.len() == old(child)@.len(),
            forall|i: int|
                0 <= i < plan@.len() ==> final(child)@[i] == perturbed(
                    old(child)@[i],
                    plan@[i],
                    self.coefficient_spec(),
                ),
            self.coefficient_spec().is_zero() ==> final(child)@ == old(child)@,
    {
        let n = child.len();
        let mut i: usize = 0;
        while i < n
            invariant
                n == old(child)@.len(),
                plan@.len() == n,
                forall|j: int|
                    0 <= j < plan@.len() ==> in_scale(plan@[j]),
                i <= n,
                child@.len() == n,
                forall|j: int|
                    0 <= j < i ==> child@[j] == perturbed(
                        old(child)@[j],
                        plan@[j],
                        self.coefficient_spec(),
                    ),
                forall|j: int| i <= j < n ==> child@[j] == old(child)@[j],
                self.coefficient_spec().is_zero() ==> forall|j: int|
                    0 <= j < i ==> child@[j] == old(child)@[j],
            decreases n - i,
        {
            match plan[i] {
                Some(p) => {
                    let gene = child.get(i).offset(p.negative, &self.coefficient, p.magnitude);
                    child.set(i, gene);
                },
                None => {},
            }
            i = i + 1;
        }
        proof {
            if self.coefficient_spec().is_zero() {
                assert(child@ =~= old(child)@);
            }
        }
    }

    /// Whether `after` is `before` with the drawn perturbations `plan`
    /// applied, one per gene, as this mutation's chance allows them.
    pub open spec fn applies_plan(
        &self,
        before: Seq<G>,
        after: Seq<G>,
        plan: Seq<Option<Perturbation>>,
    ) -> bool {
        &&& plan.len() == before.len()
        &&& after.len() == before.len()
        &&& forall|i: int| 0 <= i < plan.len() ==> in_scale(#[trigger] plan[i])
        &&& self.chance().0 == 0 ==> forall|i: int| 0 <= i < plan.len() ==> (#[trigger] plan[i]) is None
        &&& self.chance().0 == self.chance().1 ==> forall|i: int|
            0 <= i < plan.len() ==> (#[trigger] plan[i]) is Some
        &&& forall|i: int|
            0 <= i < plan.len() ==> #[trigger] after[i] == perturbed(
                before[i],
                plan[i],
                self.coefficient_spec(),
            )
    }

    /// Perturbs each gene of `child` in place: a chance of zero or a zero
    /// coefficient leaves every gene as it was.
    pub fn perturb(&self, rng: &mut Random, child: &mut Chromosome<G>)
        requires
            self.wf(),
        ensures
            final(child)@.len() == old(child)@.len(),
            self.chance().0 == 0 ==> final(child)@ == old(child)@,
            self.coefficient_spec().is_zero() ==> final(child)@ == old(child)@,
            exists|plan: Seq<Option<Perturbation>>| #[trigger]
                self.applies_plan(old(child)@, final(child)@, plan),
    {
        let plan = self.draw_perturbations(rng, child.len());
        self.apply_perturbations(&plan, child);
        assert(self.applies_plan(old(child)@, child@, plan@));
        if self.chance_numerator == 0 {
            assert(final(child)@ =~= old(child)@);
        }
    }
}

impl<G: Gene> MutationMethod<G> for GaussianMutation<G> {
    closed spec fn wf(&self) -> bool {
        0 < self.chance_denominator && self.chance_numerator <= self.chance_denominator
    }

    open spec fn keeps_genes(&self) -> bool {
        self.chance().0 == 0 || self.coefficient_spec().is_zero()
    }

    open spec fn admits(&self, before: Seq<G>, after: Seq<G>) -> bool {
        exists|plan: Seq<Option<Perturbation>>| #[trigger] self.applies_plan(before, after, plan)
    }

    fn mutate(&self, rng: &mut Random, child: &mut Chromosome<G>) {
        self.perturb(rng, child);
    }
}

} // verus!
