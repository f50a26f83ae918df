//! The evolutionary driver: per-generation reproduction, mutation,
//! elitism, scoring, and truncation selection.

use vstd::prelude::*;

use vstd::seq_lib::group_to_multiset_ensures;

use crate::canvas::Canvas;
use crate::fixed::{FX_SCALE, MAX_DIM};
use crate::genome::Individual;
use crate::random::{randint, uniform};
use crate::shape::{spec_is_circle_name, spec_is_rectangle_name, spec_is_triangle_name};
use crate::EvoError;

verus! {

/// The hyperparameters of one evolutionary run.  Probabilities and
/// ratios are fixed-point: `FX_SCALE` stands for one.
pub struct EvolveParams {
    /// How many individuals survive each generation.
    pub pop_size: usize,
    /// How many children each survivor begets.
    pub offspring_per_parent: usize,
    /// How many of the best prior individuals join the pool unchanged.
    pub elite_count: usize,
    /// The largest fraction of a child's shapes that may mutate.
    pub mutate_ratio: i64,
    /// The amplitude handed to every mutation.
    pub mutate_amp: i64,
    /// The probability that a child gains one new shape.
    pub add_shape_prob: i64,
    /// Weight of the triangle kind when a new shape is drawn.
    pub weight_triangle: i64,
    /// Weight of the circle kind when a new shape is drawn.
    pub weight_circle: i64,
    /// Weight of the rectangle kind when a new shape is drawn.
    pub weight_rectangle: i64,
}

impl EvolveParams {
    /// The weight condition alone: no negative weight, and not all
    /// weights zero.
    pub open spec fn weights_ok(&self) -> bool {
        &&& 0 <= self.weight_triangle
        &&& 0 <= self.weight_circle
        &&& 0 <= self.weight_rectangle
        &&& self.weight_triangle + self.weight_circle + self.weight_rectangle > 0
    }

    /// Everything a generation step relies on: at least one survivor
    /// and one child per parent, elites within the population size,
    /// ranges on the fixed-point knobs, and the weight condition.
    pub open spec fn wf(&self) -> bool {
        &&& 1 <= self.pop_size
        &&& 1 <= self.offspring_per_parent
        &&& self.elite_count <= self.pop_size
        &&& 0 <= self.mutate_ratio
        &&& 0 <= self.add_shape_prob <= FX_SCALE
        &&& self.weight_triangle <= 0x1_0000_0000
        &&& self.weight_circle <= 0x1_0000_0000
        &&& self.weight_rectangle <= 0x1_0000_0000
        &&& self.weights_ok()
    }

    /// Rejects a configuration whose shape-kind weights are negative
    /// or all zero, before a run starts.
    pub fn validate(&self) -> (r: Result<(), EvoError>)
        ensures
            r is Ok <==> self.weights_ok(),
            r is Err ==> r->Err_0 == EvoError::InvalidWeights,
    {
        if self.weight_triangle < 0 || self.weight_circle < 0 || self.weight_rectangle < 0 {
            return Err(EvoError::InvalidWeights);
        }
        if self.weight_triangle == 0 && self.weight_circle == 0 && self.weight_rectangle == 0 {
            return Err(EvoError::InvalidWeights);
        }
        Ok(())
    }
}

/// The fitness value of an evaluated individual.
pub open spec fn spec_fitness_key(x: Individual) -> int {
    x.fitness->0 as int
}

/// Reads the fitness of an individual known to be evaluated.
fn fitness_key(x: &Individual) -> (r: i64)
    requires
        x.fitness is Some,
    ensures
        r == spec_fitness_key(*x),
{
    match x.fitness {
        Some(f) => f,
        None => {
            proof {
                assert(false);
            }
            0
        },
    }
}

/// Draws one shape kind by weighted random selection among the three
/// configured weights.
fn choose_kind(params: &EvolveParams) -> (r: &'static str)
    requires
        params.wf(),
    ensures
        spec_is_triangle_name(r@) || spec_is_circle_name(r@) || spec_is_rectangle_name(r@),
        params.weight_triangle == 0 ==> !spec_is_triangle_name(r@),
        params.weight_circle == 0 ==> !spec_is_circle_name(r@),
        params.weight_rectangle == 0 ==> !spec_is_rectangle_name(r@),
{
    proof {
        reveal_strlit("triangle");
        reveal_strlit("TRIANGLE");
        reveal_strlit("circle");
        reveal_strlit("CIRCLE");
        reveal_strlit("rectangle");
        reveal_strlit("RECTANGLE");
    }
    let total = params.weight_triangle + params.weight_circle + params.weight_rectangle;
    let t = randint(0, total);
    if t < params.weight_triangle {
        "triangle"
    } else if t < params.weight_triangle + params.weight_circle {
        "circle"
    } else {
        "rectangle"
    }
}

/// Everything a pool member must satisfy against the target: its own
/// invariant, the target's dimensions, and — whenever a fitness is
/// cached — that the cache equals the distance of the member's own
/// rendering from the target.
pub open spec fn spec_member_ok(x: Individual, target: Canvas) -> bool {
    &&& x.wf()
    &&& x.env_height == target.x_height
    &&& x.env_width == target.y_width
    &&& x.fitness is Some ==> x.fitness->0 == Canvas::spec_distance(
        x.spec_rendering(),
        target.pixels@,
    ) as i64
}

/// Mutates a freshly cloned child: a random number of its shapes, up
/// to the configured ratio of them, each chosen uniformly with
/// replacement; then, with the configured probability, one new random
/// shape is appended.  Any change drops the cached fitness.
fn mutate_child(child: &mut Individual, canvas_size: usize, params: &EvolveParams)
    requires
        old(child).wf(),
        canvas_size <= MAX_DIM,
        params.wf(),
    ensures
        final (child).wf(),
        final (child).env_height == old(child).env_height,
        final (child).env_width == old(child).env_width,
        final (child).bg_color == old(child).bg_color,
        final (child).fitness is Some ==> final (child).fitness == old(child).fitness && final (
        child).shapes@ == old(child).shapes@,
{
    let n = child.n_shapes();
    proof {
        assert((n as int) * (params.mutate_ratio as int)
            < 0x8000_0000_0000_0000_0000_0000_0000_0000) by (nonlinear_arith)
            requires
                0 <= n <= 0xffff_ffff_ffff_ffff,
                0 <= params.mutate_ratio <= 0x7fff_ffff_ffff_ffff,
        ;
    }
    let cap_wide: u128 = n as u128 * params.mutate_ratio as u128 / FX_SCALE as u128;
    let cap: i64 = if cap_wide > 0x7fff_ffff {
        0x7fff_ffff
    } else {
        cap_wide as i64
    };
    let amount = randint(0, cap + 1);
    let mut mi: i64 = 0;
    while mi < amount
        invariant
            child.wf(),
            child.env_height == old(child).env_height,
            child.env_width == old(child).env_width,
            child.bg_color == old(child).bg_color,
            canvas_size <= MAX_DIM,
            child.fitness is Some ==> child.fitness == old(child).fitness && child.shapes@ == old(
                child,
            ).shapes@,
        decreases amount - mi,
    {
        let m = child.n_shapes();
        if 0 < m && m < 0x4000_0000 {
            let idx = randint(0, m as i64) as usize;
            let _ = child.mutate_shape(idx, canvas_size, params.mutate_amp);
        }
        mi = mi + 1;
    }
    if uniform(0, FX_SCALE) < params.add_shape_prob {
        let kind = choose_kind(params);
        let _ = child.add_shape(kind);
    }
}

/// Sorts the pool ascending by fitness.  The result is a permutation
/// of the input: same length, same multiset of individuals.
fn sort_by_fitness(v: &mut Vec<Individual>)
    requires
        forall|k: int| 0 <= k < old(v)@.len() ==> old(v)@[k].fitness is Some,
    ensures
        final (v)@.len() == old(v)@.len(),
        final (v)@.to_multiset() == old(v)@.to_multiset(),
        forall|a: int, b: int|
            0 <= a <= b < final (v)@.len() ==> spec_fitness_key(final (v)@[a]) <= spec_fitness_key(
                final (v)@[b],
            ),
        forall|k: int| 0 <= k < final (v)@.len() ==> final (v)@[k].fitness is Some,
{
    broadcast use group_to_multiset_ensures;

    let ghost orig = v@;
    let mut out: Vec<Individual> = Vec::new();
    while v.len() > 0
        invariant
            out@.len() + v@.len() == orig.len(),
            out@.to_multiset().add(v@.to_multiset()) =~= orig.to_multiset(),
            forall|k: int| 0 <= k < v@.len() ==> v@[k].fitness is Some,
            forall|k: int| 0 <= k < out@.len() ==> out@[k].fitness is Some,
            forall|a: int, b: int|
                0 <= a <= b < out@.len() ==> spec_fitness_key(out@[a]) <= spec_fitness_key(
                    out@[b],
                ),
            forall|a: int, b: int|
                0 <= a < out@.len() && 0 <= b < v@.len() ==> spec_fitness_key(out@[a])
                    <= spec_fitness_key(v@[b]),
        decreases v@.len(),
    {
        let mut m: usize = 0;
        let mut mi: usize = 1;
        while mi < v.len()
            invariant
                m < mi <= v@.len(),
                v@.len() > 0,
                forall|k: int| 0 <= k < v@.len() ==> v@[k].fitness is Some,
                forall|t: int| 0 <= t < mi ==> spec_fitness_key(v@[m as int]) <= spec_fitness_key(
                    v@[t],
                ),
            decreases v@.len() - mi,
        {
            if fitness_key(&v[mi]) < fitness_key(&v[m]) {
                m = mi;
            }
            mi = mi + 1;
        }
        let ghost v_before = v@;
        let ghost out_before = out@;
        let x = v.remove(m);
        out.push(x);
        proof {
            broadcast use group_to_multiset_ensures;
            broadcast use vstd::multiset::group_multiset_axioms;

            assert(v_before[m as int] == x);
            assert(v_before.contains(x));
            assert(v_before.to_multiset().count(x) > 0);
            assert(v@.to_multiset() == v_before.to_multiset().remove(x));
            assert(out@.to_multiset() == out_before.to_multiset().insert(x));
            assert(out@.to_multiset().add(v@.to_multiset()) =~= orig.to_multiset());
        }
    }
    *v = out;
}

/// One generation boundary: every current member begets
/// `offspring_per_parent` mutated children, the first `elite_count`
/// members join the pool unchanged, the whole pool is evaluated
/// (memoized — elites keep their cached fitness), sorted ascending by
/// fitness and truncated to `pop_size`.
///
/// With at least one elite, the best fitness never regresses: the new
/// first member's fitness is at most the prior first member's.
pub fn next_generation(population: &mut Vec<Individual>, target: &Canvas, params: &EvolveParams)
    requires
        params.wf(),
        target.wf(),
        1 <= old(population)@.len(),
        params.elite_count <= old(population)@.len(),
        forall|k: int|
            0 <= k < old(population)@.len() ==> spec_member_ok(
                #[trigger] old(population)@[k],
                *target,
            ),
    ensures
        final (population)@.len() == vstd::math::min(
            params.pop_size as int,
            old(population)@.len() * params.offspring_per_parent + params.elite_count,
        ),
        forall|k: int|
            0 <= k < final (population)@.len() ==> spec_member_ok(
                #[trigger] final (population)@[k],
                *target,
            ) && final (population)@[k].fitness is Some,
        forall|a: int, b: int|
            0 <= a <= b < final (population)@.len() ==> spec_fitness_key(final (population)@[a])
                <= spec_fitness_key(final (population)@[b]),
        params.elite_count >= 1 && old(population)@[0].fitness is Some ==> final (
        population)@[0].fitness is Some && spec_fitness_key(final (population)@[0])
            <= spec_fitness_key(old(population)@[0]),
{
    let canvas_size: usize = if target.x_height <= target.y_width {
        target.x_height
    } else {
        target.y_width
    };
    let n_parents = population.len();
    let ghost old_pop = population@;
    let mut pool: Vec<Individual> = Vec::new();
    let mut pi: usize = 0;
    while pi < n_parents
        invariant
            n_parents == population@.len(),
            population@ == old_pop,
            params.wf(),
            target.wf(),
            canvas_size <= MAX_DIM,
            canvas_size == vstd::math::min(target.x_height as int, target.y_width as int),
            pi <= n_parents,
            pool@.len() == pi * params.offspring_per_parent,
            forall|k: int|
                0 <= k < old_pop.len() ==> spec_member_ok(#[trigger] old_pop[k], *target),
            forall|k: int| 0 <= k < pool@.len() ==> spec_member_ok(#[trigger] pool@[k], *target),
        decreases n_parents - pi,
    {
        let mut ci: usize = 0;
        while ci < params.offspring_per_parent
            invariant
                n_parents == population@.len(),
                population@ == old_pop,
                params.wf(),
                target.wf(),
                canvas_size <= MAX_DIM,
                canvas_size == vstd::math::min(target.x_height as int, target.y_width as int),
                pi < n_parents,
                ci <= params.offspring_per_parent,
                pool@.len() == pi * params.offspring_per_parent + ci,
                forall|k: int|
                    0 <= k < old_pop.len() ==> spec_member_ok(#[trigger] old_pop[k], *target),
                forall|k: int|
                    0 <= k < pool@.len() ==> spec_member_ok(#[trigger] pool@[k], *target),
            decreases params.offspring_per_parent - ci,
        {
            let mut child = population[pi].clone();
            mutate_child(&mut child, canvas_size, params);
            pool.push(child);
            ci = ci + 1;
        }
        proof {
            assert(pi * params.offspring_per_parent + params.offspring_per_parent == (pi + 1)
                * params.offspring_per_parent) by (nonlinear_arith);
        }
        pi = pi + 1;
    }
    let ghost n_children = pool@.len();
    let mut ei: usize = 0;
    while ei < params.elite_count
        invariant
            n_parents == population@.len(),
            population@ == old_pop,
            params.wf(),
            target.wf(),
            params.elite_count <= old_pop.len(),
            ei <= params.elite_count,
            pool@.len() == n_children + ei,
            forall|k: int|
                0 <= k < old_pop.len() ==> spec_member_ok(#[trigger] old_pop[k], *target),
            forall|k: int| 0 <= k < pool@.len() ==> spec_member_ok(#[trigger] pool@[k], *target),
            forall|k: int|
                n_children <= k < pool@.len() ==> #[trigger] pool@[k].fitness == old_pop[k
                    - n_children].fitness,
        decreases params.elite_count - ei,
    {
        pool.push(population[ei].clone());
        ei = ei + 1;
    }
    let ghost pool_before_eval = pool@;
    let mut scored: Vec<Individual> = Vec::new();
    while pool.len() > 0
        invariant
            params.wf(),
            target.wf(),
            scored@.len() + pool@.len() == pool_before_eval.len(),
            forall|k: int|
                0 <= k < pool@.len() ==> pool@[k] == pool_before_eval[scored@.len() + k],
            forall|k: int|
                0 <= k < scored@.len() ==> spec_member_ok(#[trigger] scored@[k], *target)
                    && scored@[k].fitness is Some,
            forall|k: int|
                0 <= k < scored@.len() && pool_before_eval[k].fitness is Some
                    ==> #[trigger] scored@[k].fitness == pool_before_eval[k].fitness,
            forall|k: int|
                0 <= k < pool_before_eval.len() ==> spec_member_ok(
                    #[trigger] pool_before_eval[k],
                    *target,
                ),
        decreases pool@.len(),
    {
        let mut ind = pool.remove(0);
        ind.calc_fitness(target);
        scored.push(ind);
    }
    let ghost evald = scored@;
    sort_by_fitness(&mut scored);
    let ghost sorted = scored@;
    proof {
        broadcast use group_to_multiset_ensures;

        assert(sorted.to_multiset() == evald.to_multiset());
        assert forall|k: int| 0 <= k < sorted.len() implies spec_member_ok(
            #[trigger] sorted[k],
            *target,
        ) && sorted[k].fitness is Some by {
            assert(sorted.contains(sorted[k]));
            assert(sorted.to_multiset().count(sorted[k]) > 0);
            assert(evald.to_multiset().count(sorted[k]) > 0);
            assert(evald.contains(sorted[k]));
            let j = choose|j: int| 0 <= j < evald.len() && evald[j] == sorted[k];
            assert(spec_member_ok(evald[j], *target));
        }
    }
    scored.truncate(params.pop_size);
    proof {
        assert(scored@ == sorted.take(vstd::math::min(params.pop_size as int, sorted.len() as int)));
        if params.elite_count >= 1 && old_pop[0].fitness is Some {
            broadcast use group_to_multiset_ensures;

            let elite = evald[n_children as int];
            assert(pool_before_eval[n_children as int].fitness == old_pop[0].fitness);
            assert(elite.fitness == old_pop[0].fitness);
            assert(evald.contains(elite));
            assert(evald.to_multiset().count(elite) > 0);
            assert(sorted.to_multiset().count(elite) > 0);
            assert(sorted.contains(elite));
            let j = choose|j: int| 0 <= j < sorted.len() && sorted[j] == elite;
            assert(spec_fitness_key(sorted[0]) <= spec_fitness_key(sorted[j]));
            assert(scored@[0] == sorted[0]);
        }
    }
    *population = scored;
}

} // verus!
