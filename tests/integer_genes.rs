use genetic_algorithm::{Chromosome, GaussianMutation, Gene, MutationMethod, MAGNITUDE_SCALE};
use rand::SeedableRng;
use rand_chacha::ChaCha8Rng;

#[test]
fn integer_offset_moves_by_the_scaled_coefficient() {
    let coefficient: i64 = 1 << 24;
    assert_eq!(5i64.offset(true, &coefficient, 1 << 23), 5 - (1 << 23));
    assert_eq!(5i64.offset(false, &coefficient, 1 << 23), 5 + (1 << 23));
    assert_eq!(5i64.offset(false, &-coefficient, 1 << 23), 5 + (1 << 23));
    assert_eq!(5i64.offset(false, &3, 1), 5);
}

#[test]
fn integer_offset_with_zero_coefficient_is_identity() {
    assert_eq!(42i64.offset(true, &0, MAGNITUDE_SCALE - 1), 42);
    assert_eq!((-7i64).offset(false, &0, 12345), -7);
}

#[test]
fn integer_offset_saturates() {
    assert_eq!(i64::MAX.offset(false, &i64::MAX, MAGNITUDE_SCALE - 1), i64::MAX);
    assert_eq!(i64::MIN.offset(true, &i64::MIN, MAGNITUDE_SCALE - 1), i64::MIN);
}

#[test]
fn integer_mutation_with_zero_chance_keeps_genes() {
    let mut rng = ChaCha8Rng::from_seed(Default::default());
    let mut child = Chromosome::from_genes(vec![10i64, 20, 30]);
    GaussianMutation::new(0, 5, 1i64 << 30).unwrap().mutate(&mut rng, &mut child);
    assert_eq!(child.iter(), vec![10, 20, 30]);
}

#[test]
fn integer_mutation_with_full_chance_changes_genes() {
    let mut rng = ChaCha8Rng::from_seed(Default::default());
    let mut child = Chromosome::from_genes(vec![10i64, 20, 30]);
    let mutation = GaussianMutation::new(4, 4, 1i64 << 30).unwrap();
    mutation.mutate(&mut rng, &mut child);
    let genes = child.iter();
    assert_eq!(genes.len(), 3);
    assert!(genes.iter().zip([10i64, 20, 30]).all(|(g, o)| *g != o && (g - o).abs() <= 1 << 30));
}

#[test]
fn integer_mutation_with_zero_coefficient_keeps_genes() {
    let mut rng = ChaCha8Rng::from_seed(Default::default());
    let mut child = Chromosome::from_genes(vec![10i64, 20, 30]);
    GaussianMutation::new(1, 1, 0i64).unwrap().mutate(&mut rng, &mut child);
    assert_eq!(child.iter(), vec![10, 20, 30]);
}

#[test]
fn drawn_perturbations_follow_the_chance() {
    let mut rng = ChaCha8Rng::from_seed(Default::default());
    let never = GaussianMutation::new(0, 1, 1i64).unwrap();
    assert!(never.draw_perturbations(&mut rng, 8).iter().all(|p| p.is_none()));
    let always = GaussianMutation::new(1, 1, 1i64).unwrap();
    let plan = always.draw_perturbations(&mut rng, 8);
    assert_eq!(plan.len(), 8);
    assert!(plan.iter().all(|p| matches!(p, Some(q) if q.magnitude < MAGNITUDE_SCALE)));
    assert!(plan.iter().any(|p| matches!(p, Some(q) if q.negative)));
    assert!(plan.iter().any(|p| matches!(p, Some(q) if !q.negative)));
}
