use evoraster::canvas::Canvas;
use evoraster::evolve::{next_generation, EvolveParams};
use evoraster::fixed::FX_SCALE;
use evoraster::genome::Individual;
use evoraster::EvoError;

fn gray_target(h: usize, w: usize) -> Canvas {
    Canvas::new(h, w, (128 * FX_SCALE, 128 * FX_SCALE, 128 * FX_SCALE))
}

fn params() -> EvolveParams {
    EvolveParams {
        pop_size: 4,
        offspring_per_parent: 4,
        elite_count: 2,
        mutate_ratio: FX_SCALE / 10,
        mutate_amp: FX_SCALE,
        add_shape_prob: FX_SCALE / 2,
        weight_triangle: 1,
        weight_circle: 1,
        weight_rectangle: 1,
    }
}

#[test]
fn genome_starts_empty_and_unscored() {
    let g = Individual::new(8, 8, (0, 0, 0));
    assert_eq!(g.n_shapes(), 0);
    assert_eq!(g.get_fitness(), Err(EvoError::FitnessNotComputed));
}

#[test]
fn evaluate_is_idempotent() {
    let target = gray_target(8, 8);
    let mut g = Individual::new(8, 8, (0, 0, 0));
    let _ = g.add_shape("circle");
    g.calc_fitness(&target);
    let f1 = g.get_fitness().unwrap();
    g.calc_fitness(&target);
    let f2 = g.get_fitness().unwrap();
    assert_eq!(f1, f2);
}

#[test]
fn mutation_invalidates_cached_fitness() {
    let target = gray_target(8, 8);
    let mut g = Individual::new(8, 8, (0, 0, 0));
    let _ = g.add_shape("rectangle");
    g.calc_fitness(&target);
    assert!(g.get_fitness().is_ok());

    g.mutate_shape(0, 8, FX_SCALE).unwrap();
    assert_eq!(g.get_fitness(), Err(EvoError::FitnessNotComputed));
    g.calc_fitness(&target);
    assert!(g.get_fitness().is_ok());

    let _ = g.add_shape("triangle");
    assert_eq!(g.get_fitness(), Err(EvoError::FitnessNotComputed));
}

#[test]
fn mutate_shape_rejects_an_out_of_range_index() {
    let mut g = Individual::new(8, 8, (0, 0, 0));
    assert_eq!(g.mutate_shape(0, 8, FX_SCALE), Err(EvoError::IndexOutOfRange));
    let _ = g.add_shape("circle");
    assert_eq!(g.mutate_shape(1, 8, FX_SCALE), Err(EvoError::IndexOutOfRange));
    assert_eq!(g.mutate_shape(0, 8, FX_SCALE), Ok(()));
}

#[test]
fn add_shape_rejects_an_unknown_kind() {
    let mut g = Individual::new(8, 8, (0, 0, 0));
    assert_eq!(g.add_shape("blob"), Err(EvoError::UnknownShapeKind));
    assert_eq!(g.n_shapes(), 0);
    assert_eq!(g.add_shape("circle"), Ok(()));
    assert_eq!(g.n_shapes(), 1);
}

#[test]
fn clone_is_independent() {
    let mut g = Individual::new(8, 8, (0, 0, 0));
    let _ = g.add_shape("circle");
    let mut child = g.clone();
    assert_eq!(child.n_shapes(), 1);
    let _ = child.add_shape("rectangle");
    child.mutate_shape(0, 8, FX_SCALE).unwrap();
    // the parent's shape list is untouched by the child's mutations
    assert_eq!(g.n_shapes(), 1);
}

#[test]
fn weight_validation() {
    let mut p = params();
    assert_eq!(p.validate(), Ok(()));
    p.weight_triangle = 0;
    p.weight_circle = 0;
    p.weight_rectangle = 0;
    assert_eq!(p.validate(), Err(EvoError::InvalidWeights));
    p.weight_circle = -1;
    assert_eq!(p.validate(), Err(EvoError::InvalidWeights));
    p.weight_circle = 5;
    assert_eq!(p.validate(), Ok(()));
}

#[test]
fn one_generation_from_empty_genomes() {
    let target = gray_target(8, 8);
    let mut population: Vec<Individual> = Vec::new();
    for _ in 0..4 {
        population.push(Individual::new(8, 8, (0, 0, 0)));
    }
    let p = params();
    next_generation(&mut population, &target, &p);
    assert_eq!(population.len(), 4);
    let mut last: i64 = i64::MIN;
    for ind in population.iter() {
        let f = ind.get_fitness().expect("every member is scored");
        assert!(last <= f);
        last = f;
    }
}

#[test]
fn elitism_never_regresses_the_best_fitness() {
    let target = gray_target(8, 8);
    let mut population: Vec<Individual> = Vec::new();
    for _ in 0..4 {
        population.push(Individual::new(8, 8, (0, 0, 0)));
    }
    let p = params();
    next_generation(&mut population, &target, &p);
    let mut best = population[0].get_fitness().unwrap();
    for _ in 0..5 {
        next_generation(&mut population, &target, &p);
        let new_best = population[0].get_fitness().unwrap();
        assert!(new_best <= best);
        best = new_best;
    }
}

#[test]
fn pool_smaller_than_pop_size_survives_whole() {
    let target = gray_target(6, 6);
    let mut population: Vec<Individual> = Vec::new();
    population.push(Individual::new(6, 6, (0, 0, 0)));
    let mut p = params();
    p.pop_size = 10;
    p.offspring_per_parent = 2;
    p.elite_count = 1;
    next_generation(&mut population, &target, &p);
    // one parent, two children plus one elite: the pool is three strong
    assert_eq!(population.len(), 3);
}
