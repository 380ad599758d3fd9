//! The evolutionary driver.  Each generation runs a fixed pipeline over a
//! bounded population: hooks, fitness evaluation, ranking, truncation
//! selection and variation, and yields the ranked pre-variation snapshot.
//!
//! Rates are permille: a `gap` of 300 removes the worst 30% each generation;
//! `mutation_percent` and `crossover_percent` split the freed slots.

use vstd::prelude::*;
use vstd::arithmetic::div_mod::{
    lemma_div_is_ordered, lemma_div_multiples_vanish, lemma_fundamental_div_mod,
    lemma_fundamental_div_mod_converse,
};
use vstd::seq_lib::group_to_multiset_ensures;

use core::marker::PhantomData;

use crate::characteristics::Organism;
use crate::fitness_engine::Fitness;
use crate::population::Population;
use crate::rng::{rand_below, rng_from_seed};

verus! {

broadcast use group_to_multiset_ensures;

/// Upper bound on the population size; keeps the permille arithmetic far
/// from overflow.
pub const MAX_POPULATION: usize = 1000000;

/// Every organism is internally consistent and shaped by the generator
/// parameters the engine will breed it with.
pub open spec fn orgs_ok<O: Organism>(s: Seq<O>, gp: &O::GeneratorParameters) -> bool {
    forall|i: int|
        0 <= i < s.len() ==> {
            &&& (#[trigger] s[i]).well_formed()
            &&& s[i].compatible(gp)
        }
}

/// No organism still carries an unevaluated fitness slot.
pub open spec fn all_evaluated<O: Fitness>(s: Seq<O>) -> bool {
    forall|i: int| 0 <= i < s.len() ==> !((#[trigger] s[i]).fitness_spec() is NotEvaluated)
}

/// `p` is the length of the leading run of out-of-bounds organisms.
pub open spec fn is_oob_prefix_len<O: Fitness>(s: Seq<O>, p: int) -> bool {
    &&& 0 <= p <= s.len()
    &&& forall|k: int| 0 <= k < p ==> (#[trigger] s[k].fitness_spec()) is OutOfBounds
    &&& p < s.len() ==> !(s[p as int].fitness_spec() is OutOfBounds)
}

/// How many organisms a ranked population of `len` keeps before variation:
/// `floor((1 - gap) * len)` with `gap` in permille.
pub open spec fn keep_quota(len: int, gap: int) -> int {
    ((1000 - gap) * len) / 1000
}

/// How many organisms `survive` removes in all: every leading out-of-bounds
/// organism, and then enough of the remaining worst to meet the gap.
pub open spec fn drop_total(len: int, oob: int, gap: int) -> int {
    let g = len - keep_quota(len, gap);
    if oob >= g {
        oob
    } else {
        g
    }
}

/// What kind of organism variation appends at offset `k`, when it owes
/// `ncx` crossover children and `nmut` mutation children: the two kinds
/// alternate, crossover first, until one share is exhausted, the larger
/// share's tail follows, and every later slot is a fresh duplicate.
pub open spec fn appended_kind(k: int, ncx: int, nmut: int) -> int {
    let paired = 2 * (if ncx <= nmut {
        ncx
    } else {
        nmut
    });
    if k < paired {
        if k % 2 == 0 {
            0
        } else {
            1
        }
    } else if ncx > nmut {
        if k < paired + (ncx - nmut) {
            0
        } else {
            2
        }
    } else {
        if k < paired + (nmut - ncx) {
            1
        } else {
            2
        }
    }
}

/// Every appended organism is accounted for: at a crossover slot it is a
/// crossover child of two survivors, at a mutation slot a mutation child of
/// a survivor, and at every remaining slot a fresh duplicate of a survivor.
pub open spec fn appended_ok<O: Organism>(
    appended: Seq<O>,
    survivors: Seq<O>,
    ncx: int,
    nmut: int,
) -> bool {
    forall|k: int|
        0 <= k < appended.len() ==> {
            let kind = #[trigger] appended_kind(k, ncx, nmut);
            ||| (kind == 0 && exists|a: int, b: int|
                #![trigger appended[k].child_of_crossover(&survivors[a], &survivors[b])]
                0 <= a < survivors.len() && 0 <= b < survivors.len()
                    && appended[k].child_of_crossover(&survivors[a], &survivors[b]))
            ||| (kind == 1 && exists|a: int|
                #![trigger appended[k].child_of_mutation(&survivors[a])]
                0 <= a < survivors.len() && appended[k].child_of_mutation(&survivors[a]))
            ||| (kind == 2 && exists|a: int|
                #![trigger appended[k].duplicate_of(&survivors[a])]
                0 <= a < survivors.len() && appended[k].duplicate_of(&survivors[a]))
        }
}

/// `snapshot` is the evaluated, ranked form of `prepared`: some slot-wise
/// evaluation of `prepared` — preserving each organism's shape and leaving
/// already-scored organisms exactly as they were — reordered into fitness
/// order as a permutation.
pub open spec fn snapshot_of<O: Organism>(snapshot: Seq<O>, prepared: Seq<O>) -> bool {
    exists|evaluated: Seq<O>|
        #![trigger evaluated.to_multiset()]
        {
            &&& evaluated.len() == prepared.len()
            &&& forall|i: int|
                0 <= i < evaluated.len() ==> {
                    &&& (#[trigger] evaluated[i]).shape() == prepared[i].shape()
                    &&& !(evaluated[i].fitness_spec() is NotEvaluated)
                    &&& !(prepared[i].fitness_spec() is NotEvaluated) ==> evaluated[i]
                        == prepared[i]
                }
            &&& snapshot.to_multiset() == evaluated.to_multiset()
        }
}

/// `next` is prepared from the ranked `snapshot` under the configuration:
/// selection keeps the slice past the out-of-bounds prefix and the gap
/// quota — slot by slot a shape- and fitness-preserving copy of the
/// snapshot's surviving slice — and variation refills to `population_size`
/// with the accounted crossover, mutation and duplication children of
/// exactly those survivors.
pub open spec fn prepared_of<O: Organism>(
    next: Seq<O>,
    snapshot: Seq<O>,
    gap: int,
    population_size: int,
    cx_permille: int,
    mut_permille: int,
) -> bool {
    exists|p: int|
        {
            &&& #[trigger] is_oob_prefix_len(snapshot, p)
            &&& ({
                let d = drop_total(snapshot.len() as int, p, gap);
                let n_kept = snapshot.len() - d;
                let free = population_size - n_kept;
                &&& next.len() == population_size
                &&& forall|i: int|
                    0 <= i < n_kept ==> {
                        &&& (#[trigger] next[i]).shape() == snapshot[d + i].shape()
                        &&& next[i].fitness_spec() == snapshot[d + i].fitness_spec()
                    }
                &&& appended_ok(
                    next.subrange(n_kept as int, next.len() as int),
                    next.subrange(0, n_kept as int),
                    (free * cx_permille) / 1000,
                    (free * mut_permille) / 1000,
                )
            })
        }
}

/// Truncation selection under the given gap would leave at least one
/// organism of the ranked sequence standing.
pub open spec fn has_survivor<O: Fitness>(s: Seq<O>, gap: int) -> bool {
    exists|p: int|
        {
            &&& #[trigger] is_oob_prefix_len(s, p)
            &&& drop_total(s.len() as int, p, gap) < s.len() as int
        }
}

/// The duplicate-fill slots from `start` onward name their parents:
/// `parents[k]` is the survivor behind the `k`-th duplicate, and within
/// each round of `survivors.len()` consecutive duplicates the parents are
/// pairwise distinct — duplicates are drawn without replacement until a
/// round exhausts the survivors.
pub open spec fn duplicates_without_replacement<O: Organism>(
    appended: Seq<O>,
    survivors: Seq<O>,
    start: int,
    parents: Seq<int>,
) -> bool {
    &&& parents.len() == appended.len() - start
    &&& forall|k: int|
        0 <= k < parents.len() ==> {
            &&& 0 <= #[trigger] parents[k] < survivors.len()
            &&& appended[start + k].duplicate_of(&survivors[parents[k]])
        }
    &&& forall|k1: int, k2: int|
        0 <= k1 < k2 < parents.len() && k1 / (survivors.len() as int) == k2 / (
        survivors.len() as int) ==> parents[k1] != parents[k2]
}

/// Appending one organism that satisfies its slot's kind keeps the whole
/// appended region accounted for.
proof fn lemma_appended_push<O: Organism>(
    pre: Seq<O>,
    child: O,
    survivors: Seq<O>,
    ncx: int,
    nmut: int,
)
    requires
        appended_ok(pre, survivors, ncx, nmut),
        ({
            let kind = appended_kind(pre.len() as int, ncx, nmut);
            ||| (kind == 0 && exists|a: int, b: int|
                #![trigger child.child_of_crossover(&survivors[a], &survivors[b])]
                0 <= a < survivors.len() && 0 <= b < survivors.len()
                    && child.child_of_crossover(&survivors[a], &survivors[b]))
            ||| (kind == 1 && exists|a: int|
                #![trigger child.child_of_mutation(&survivors[a])]
                0 <= a < survivors.len() && child.child_of_mutation(&survivors[a]))
            ||| (kind == 2 && exists|a: int|
                #![trigger child.duplicate_of(&survivors[a])]
                0 <= a < survivors.len() && child.duplicate_of(&survivors[a]))
        }),
    ensures
        appended_ok(pre.push(child), survivors, ncx, nmut),
{
    let post = pre.push(child);
    assert forall|k: int| 0 <= k < post.len() implies {
        let kind = #[trigger] appended_kind(k, ncx, nmut);
        ||| (kind == 0 && exists|a: int, b: int|
            #![trigger post[k].child_of_crossover(&survivors[a], &survivors[b])]
            0 <= a < survivors.len() && 0 <= b < survivors.len()
                && post[k].child_of_crossover(&survivors[a], &survivors[b]))
        ||| (kind == 1 && exists|a: int|
            #![trigger post[k].child_of_mutation(&survivors[a])]
            0 <= a < survivors.len() && post[k].child_of_mutation(&survivors[a]))
        ||| (kind == 2 && exists|a: int|
            #![trigger post[k].duplicate_of(&survivors[a])]
            0 <= a < survivors.len() && post[k].duplicate_of(&survivors[a]))
    } by {
        let kind = appended_kind(k, ncx, nmut);
        if k < pre.len() {
            assert(post[k] == pre[k]);
            if kind == 0 {
                let (a, b) = choose|a: int, b: int|
                    #![trigger pre[k].child_of_crossover(&survivors[a], &survivors[b])]
                    0 <= a < survivors.len() && 0 <= b < survivors.len() && pre[
                        k
                    ].child_of_crossover(&survivors[a], &survivors[b]);
                assert(post[k].child_of_crossover(&survivors[a], &survivors[b]));
            } else if kind == 1 {
                let a = choose|a: int|
                    #![trigger pre[k].child_of_mutation(&survivors[a])]
                    0 <= a < survivors.len() && pre[k].child_of_mutation(&survivors[a]);
                assert(post[k].child_of_mutation(&survivors[a]));
            } else {
                let a = choose|a: int|
                    #![trigger pre[k].duplicate_of(&survivors[a])]
                    0 <= a < survivors.len() && pre[k].duplicate_of(&survivors[a]);
                assert(post[k].duplicate_of(&survivors[a]));
            }
        } else {
            assert(k == pre.len());
            assert(post[k] == child);
            if kind == 0 {
                let (a, b) = choose|a: int, b: int|
                    #![trigger child.child_of_crossover(&survivors[a], &survivors[b])]
                    0 <= a < survivors.len() && 0 <= b < survivors.len()
                        && child.child_of_crossover(&survivors[a], &survivors[b]);
                assert(post[k].child_of_crossover(&survivors[a], &survivors[b]));
            } else if kind == 1 {
                let a = choose|a: int|
                    #![trigger child.child_of_mutation(&survivors[a])]
                    0 <= a < survivors.len() && child.child_of_mutation(&survivors[a]);
                assert(post[k].child_of_mutation(&survivors[a]));
            } else {
                let a = choose|a: int|
                    #![trigger child.duplicate_of(&survivors[a])]
                    0 <= a < survivors.len() && child.duplicate_of(&survivors[a]);
                assert(post[k].duplicate_of(&survivors[a]));
            }
        }
    }
}

#[derive(Clone, Copy, Debug, PartialEq, Eq, Structural)]
pub enum ParameterError {
    InvalidPopulationSize,
    InvalidGap,
    InvalidVariationShares,
    InvalidGenerationCount,
    InvalidProgramParameters,
    InvalidFitnessParameters,
}

/// The configuration shared across the pipeline.  `gap`,
/// `mutation_percent` and `crossover_percent` are permille.
pub struct HyperParameters<O: Organism> {
    pub population_size: usize,
    pub gap: u32,
    pub mutation_percent: u32,
    pub crossover_percent: u32,
    pub n_generations: usize,
    pub fitness_parameters: O::FitnessParameters,
    pub program_parameters: O::GeneratorParameters,
}

impl<O: Organism> HyperParameters<O> {
    pub open spec fn wf(&self) -> bool {
        &&& 2 <= self.population_size <= MAX_POPULATION
        &&& self.gap <= 1000
        &&& self.mutation_percent + self.crossover_percent <= 1000
        &&& self.n_generations < usize::MAX
        &&& O::gen_params_wf(&self.program_parameters)
        &&& O::fitness_params_wf(&self.fitness_parameters)
    }

    /// Validate a configuration.  Success exactly when the population size,
    /// the permille rates and both parameter sets are admissible.
    pub fn new(
        population_size: usize,
        gap: u32,
        mutation_percent: u32,
        crossover_percent: u32,
        n_generations: usize,
        fitness_parameters: O::FitnessParameters,
        program_parameters: O::GeneratorParameters,
    ) -> (r: Result<Self, ParameterError>)
        ensures
            r matches Ok(h) ==> {
                &&& h.wf()
                &&& h.population_size == population_size
                &&& h.gap == gap
                &&& h.mutation_percent == mutation_percent
                &&& h.crossover_percent == crossover_percent
                &&& h.n_generations == n_generations
            },
            r matches Err(e) ==> {
                let pop_ok = 2 <= population_size <= MAX_POPULATION;
                let gap_ok = gap <= 1000;
                let shares_ok = mutation_percent + crossover_percent <= 1000;
                let generations_ok = n_generations < usize::MAX;
                let programs_ok = O::gen_params_wf(&program_parameters);
                &&& (e == ParameterError::InvalidPopulationSize <==> !pop_ok)
                &&& (e == ParameterError::InvalidGap <==> (pop_ok && !gap_ok))
                &&& (e == ParameterError::InvalidVariationShares <==> (pop_ok && gap_ok
                    && !shares_ok))
                &&& (e == ParameterError::InvalidGenerationCount <==> (pop_ok && gap_ok
                    && shares_ok && !generations_ok))
                &&& (e == ParameterError::InvalidProgramParameters <==> (pop_ok && gap_ok
                    && shares_ok && generations_ok && !programs_ok))
                &&& (e == ParameterError::InvalidFitnessParameters <==> (pop_ok && gap_ok
                    && shares_ok && generations_ok && programs_ok && !O::fitness_params_wf(
                    &fitness_parameters,
                )))
            },
            (r is Err) <==> {
                ||| !(2 <= population_size <= MAX_POPULATION)
                ||| gap > 1000
                ||| mutation_percent + crossover_percent > 1000
                ||| n_generations == usize::MAX
                ||| !O::gen_params_wf(&program_parameters)
                ||| !O::fitness_params_wf(&fitness_parameters)
            },
    {
        if !(2 <= population_size && population_size <= MAX_POPULATION) {
            return Err(ParameterError::InvalidPopulationSize);
        }
        if gap > 1000 {
            return Err(ParameterError::InvalidGap);
        }
        if mutation_percent > 1000 || crossover_percent > 1000 - mutation_percent {
            return Err(ParameterError::InvalidVariationShares);
        }
        if n_generations == usize::MAX {
            return Err(ParameterError::InvalidGenerationCount);
        }
        if !O::check_gen_params(&program_parameters) {
            return Err(ParameterError::InvalidProgramParameters);
        }
        if !O::check_fitness_params(&fitness_parameters) {
            return Err(ParameterError::InvalidFitnessParameters);
        }
        Ok(
            HyperParameters {
                population_size,
                gap,
                mutation_percent,
                crossover_percent,
                n_generations,
                fitness_parameters,
                program_parameters,
            },
        )
    }
}

/// A genetic algorithm over some organism type.  The per-generation phases
/// come with the trait; an implementation chooses the organism and may
/// override the event hooks, which default to no-ops and may retune the
/// fitness parameters between phases.
pub trait GeneticAlgorithm: Sized {
    type O: Organism;

    fn on_pre_init(params: &mut HyperParameters<Self::O>)
        requires
            old(params).wf(),
        ensures
            final(params).wf(),
            final(params).population_size == old(params).population_size,
            final(params).gap == old(params).gap,
            final(params).mutation_percent == old(params).mutation_percent,
            final(params).crossover_percent == old(params).crossover_percent,
            final(params).n_generations == old(params).n_generations,
            final(params).program_parameters == old(params).program_parameters,
    {
    }

    fn on_pre_eval_fitness(
        population: &Population<Self::O>,
        params: &mut HyperParameters<Self::O>,
    )
        requires
            old(params).wf(),
        ensures
            final(params).wf(),
            final(params).population_size == old(params).population_size,
            final(params).gap == old(params).gap,
            final(params).mutation_percent == old(params).mutation_percent,
            final(params).crossover_percent == old(params).crossover_percent,
            final(params).n_generations == old(params).n_generations,
            final(params).program_parameters == old(params).program_parameters,
    {
    }

    fn on_pre_rank(population: &Population<Self::O>, params: &mut HyperParameters<Self::O>)
        requires
            old(params).wf(),
        ensures
            final(params).wf(),
            final(params).population_size == old(params).population_size,
            final(params).gap == old(params).gap,
            final(params).mutation_percent == old(params).mutation_percent,
            final(params).crossover_percent == old(params).crossover_percent,
            final(params).n_generations == old(params).n_generations,
            final(params).program_parameters == old(params).program_parameters,
    {
    }

    fn on_post_rank(population: &Population<Self::O>, params: &mut HyperParameters<Self::O>)
        requires
            old(params).wf(),
        ensures
            final(params).wf(),
            final(params).population_size == old(params).population_size,
            final(params).gap == old(params).gap,
            final(params).mutation_percent == old(params).mutation_percent,
            final(params).crossover_percent == old(params).crossover_percent,
            final(params).n_generations == old(params).n_generations,
            final(params).program_parameters == old(params).program_parameters,
    {
    }

    /// A fresh population at full capacity, every organism freshly sampled
    /// and unevaluated.
    fn init_pop(params: &HyperParameters<Self::O>, rng: &mut rand::rngs::StdRng) -> (r:
        Population<Self::O>)
        requires
            params.wf(),
        ensures
            r.wf(),
            r.capacity == params.population_size,
            r.members@.len() == params.population_size,
            orgs_ok(r.members@, &params.program_parameters),
            forall|i: int|
                0 <= i < r.members@.len() ==> (#[trigger] r.members@[i].fitness_spec())
                    is NotEvaluated,
    {
        let mut population: Population<Self::O> = Population::new(params.population_size);
        let mut i: usize = 0;
        while i < params.population_size
            invariant
                i <= params.population_size,
                params.wf(),
                population.wf(),
                population.capacity == params.population_size,
                population.members@.len() == i,
                orgs_ok(population.members@, &params.program_parameters),
                forall|k: int|
                    0 <= k < i ==> (#[trigger] population.members@[k].fitness_spec())
                        is NotEvaluated,
            decreases params.population_size - i,
        {
            let organism = Self::O::generate(&params.program_parameters, rng);
            population.push(organism);
            i += 1;
        }
        population
    }

    /// Evaluate every organism whose fitness slot is still unevaluated; one
    /// already scored is left exactly as it is.
    fn eval_fitness(
        population: &mut Population<Self::O>,
        params: &mut HyperParameters<Self::O>,
        rng: &mut rand::rngs::StdRng,
    )
        requires
            old(population).wf(),
            old(params).wf(),
            orgs_ok(old(population).members@, &old(params).program_parameters),
        ensures
            final(population).wf(),
            final(population).capacity == old(population).capacity,
            final(population).members@.len() == old(population).members@.len(),
            orgs_ok(final(population).members@, &old(params).program_parameters),
            all_evaluated(final(population).members@),
            forall|i: int|
                0 <= i < old(population).members@.len() && !((
                #[trigger] old(population).members@[i].fitness_spec()) is NotEvaluated)
                    ==> final(population).members@[i] == old(population).members@[i],
            forall|i: int|
                0 <= i < old(population).members@.len() ==> (
                #[trigger] final(population).members@[i]).shape() == old(
                    population,
                ).members@[i].shape(),
            final(params).wf(),
            final(params).population_size == old(params).population_size,
            final(params).gap == old(params).gap,
            final(params).mutation_percent == old(params).mutation_percent,
            final(params).crossover_percent == old(params).crossover_percent,
            final(params).n_generations == old(params).n_generations,
            final(params).program_parameters == old(params).program_parameters,
    {
        let n = population.len();
        let mut i: usize = 0;
        while i < n
            invariant
                i <= n,
                n == population.members@.len(),
                population.wf(),
                population.capacity == old(population).capacity,
                orgs_ok(population.members@, &params.program_parameters),
                forall|k: int|
                    0 <= k < i ==> !((#[trigger] population.members@[k].fitness_spec())
                        is NotEvaluated),
                forall|k: int|
                    0 <= k < n && !((#[trigger] old(population).members@[k].fitness_spec())
                        is NotEvaluated) ==> population.members@[k] == old(
                        population,
                    ).members@[k],
                forall|k: int|
                    0 <= k < n ==> (#[trigger] population.members@[k]).shape() == old(
                        population,
                    ).members@[k].shape(),
                params.wf(),
                params.population_size == old(params).population_size,
                params.gap == old(params).gap,
                params.mutation_percent == old(params).mutation_percent,
                params.crossover_percent == old(params).crossover_percent,
                params.n_generations == old(params).n_generations,
                params.program_parameters == old(params).program_parameters,
            decreases n - i,
        {
            let needs_eval = population.get(i).get_fitness().is_not_evaluated();
            if needs_eval {
                let ghost pre = population.members@;
                let mut organism = population.members.remove(i);
                organism.eval_fitness(&mut params.fitness_parameters, rng);
                proof {
                    Self::O::lemma_compatible_from_shape(
                        &pre[i as int],
                        &organism,
                        &params.program_parameters,
                    );
                }
                population.members.insert(i, organism);
                proof {
                    assert(population.members@ =~= pre.update(i as int, population.members@[i as int]));
                }
            }
            i += 1;
        }
    }

    /// Rank the population: sort ascending by fitness.  Afterwards the worst
    /// organism is first and the best last.
    fn rank(population: &mut Population<Self::O>, params: &HyperParameters<Self::O>)
        requires
            old(population).wf(),
            params.wf(),
            orgs_ok(old(population).members@, &params.program_parameters),
            all_evaluated(old(population).members@),
        ensures
            final(population).wf(),
            final(population).sorted(),
            final(population).capacity == old(population).capacity,
            final(population).members@.len() == old(population).members@.len(),
            final(population).members@.to_multiset() == old(population).members@.to_multiset(),
            orgs_ok(final(population).members@, &params.program_parameters),
            all_evaluated(final(population).members@),
    {
        let ghost pre = population.members@;
        population.sort();
        proof {
            lemma_permutation_members(pre, population.members@);
            assert forall|i: int| 0 <= i < population.members@.len() implies {
                &&& (#[trigger] population.members@[i]).well_formed()
                &&& population.members@[i].compatible(&params.program_parameters)
                &&& !(population.members@[i].fitness_spec() is NotEvaluated)
            } by {
                let x = population.members@[i];
                let j = choose|j: int| 0 <= j < pre.len() && pre[j] == x;
            }
        }
    }
    /// Truncation selection on a ranked population: first pop every
    /// out-of-bounds organism from the worst end, counting against the gap
    /// quota; then pop the remaining quota.  The survivors are the best of
    /// the population, all with valid fitness.
    fn survive(population: &mut Population<Self::O>, params: &HyperParameters<Self::O>)
        requires
            old(population).wf(),
            old(population).sorted(),
            params.wf(),
            old(population).capacity == params.population_size,
            orgs_ok(old(population).members@, &params.program_parameters),
            all_evaluated(old(population).members@),
        ensures
            final(population).wf(),
            final(population).sorted(),
            final(population).capacity == old(population).capacity,
            orgs_ok(final(population).members@, &params.program_parameters),
            all_evaluated(final(population).members@),
            exists|p: int|
                {
                    &&& #[trigger] is_oob_prefix_len(old(population).members@, p)
                    &&& final(population).members@ == old(population).members@.subrange(
                        drop_total(old(population).members@.len() as int, p, params.gap as int),
                        old(population).members@.len() as int,
                    )
                },
            forall|i: int|
                0 <= i < final(population).members@.len() ==> (
                #[trigger] final(population).members@[i].fitness_spec()) is Valid,
    {
        let len = population.len();
        let mut p: usize = 0;
        while p < len && population.get(p).get_fitness().is_invalid()
            invariant
                p <= len,
                len == population.members@.len(),
                population.wf(),
                forall|k: int|
                    0 <= k < p ==> (#[trigger] population.members@[k].fitness_spec())
                        is OutOfBounds,
            decreases len - p,
        {
            p += 1;
        }
        let ghost oob = p as int;
        proof {
            assert(is_oob_prefix_len(population.members@, oob));
        }
        proof {
            let l = len as int;
            let g = params.gap as int;
            assert(l <= MAX_POPULATION);
            assert((1000 - g) * l >= 0 && (1000 - g) * l <= 1000 * l && 1000 * l
                <= 1000000000) by (nonlinear_arith)
                requires
                    0 <= g <= 1000,
                    0 <= l <= 1000000,
            ;
            lemma_div_is_ordered((1000 - g) * l, 1000 * l, 1000);
            lemma_div_multiples_vanish(l, 1000);
            lemma_div_is_ordered(0, (1000 - g) * l, 1000);
        }
        let keep = (((1000 - params.gap) as usize) * len) / 1000;
        proof {
            let l = len as int;
            let g = params.gap as int;
            assert(0 <= keep_quota(l, g) <= l);
        }
        let drop_gap = len - keep;
        let total = if p >= drop_gap {
            p
        } else {
            drop_gap
        };
        let ghost pre = population.members@;
        population.drop_worst(total);
        proof {
            assert(total as int == drop_total(pre.len() as int, oob, params.gap as int));
            assert forall|i: int| 0 <= i < population.members@.len() implies (
            #[trigger] population.members@[i].fitness_spec()) is Valid by {
                let k = total as int + i;
                assert(population.members@[i] == pre[k]);
                assert(!(pre[k].fitness_spec() is NotEvaluated));
                if pre[k].fitness_spec() is OutOfBounds {
                    if oob < pre.len() {
                        assert(!(pre[oob].fitness_spec() is OutOfBounds));
                        assert(!(pre[oob].fitness_spec() is NotEvaluated));
                        assert(pre[oob].fitness_spec() is Valid);
                        assert(oob < k);
                        assert(crate::fitness_engine::fs_le(
                            pre[oob].fitness_spec(),
                            pre[k].fitness_spec(),
                        ));
                        assert(false);
                    } else {
                        assert(false);
                    }
                }
            }
        }
    }

    /// Refill a truncated population to capacity: a crossover share and a
    /// mutation share of the freed slots (permille of the free space,
    /// rounded down), the rest fresh duplicates of survivors drawn without
    /// replacement round by round.  Parents are drawn uniformly from the
    /// survivors; every new organism is unevaluated.
    fn variation(
        population: &mut Population<Self::O>,
        params: &HyperParameters<Self::O>,
        rng: &mut rand::rngs::StdRng,
    )
        requires
            old(population).wf(),
            params.wf(),
            old(population).capacity == params.population_size,
            1 <= old(population).members@.len(),
            orgs_ok(old(population).members@, &params.program_parameters),
        ensures
            final(population).wf(),
            final(population).capacity == old(population).capacity,
            final(population).members@.len() == final(population).capacity,
            final(population).members@.subrange(0, old(population).members@.len() as int) == old(
                population,
            ).members@,
            orgs_ok(final(population).members@, &params.program_parameters),
            forall|i: int|
                old(population).members@.len() <= i < final(population).members@.len() ==> (
                #[trigger] final(population).members@[i].fitness_spec()) is NotEvaluated,
            ({
                let len0 = old(population).members@.len() as int;
                let free = old(population).capacity - len0;
                appended_ok(
                    final(population).members@.subrange(
                        len0,
                        final(population).members@.len() as int,
                    ),
                    old(population).members@,
                    (free * (params.crossover_percent as int)) / 1000,
                    (free * (params.mutation_percent as int)) / 1000,
                )
            }),
            ({
                let len0 = old(population).members@.len() as int;
                let free = old(population).capacity - len0;
                exists|parents: Seq<int>|
                    #[trigger] duplicates_without_replacement(
                        final(population).members@.subrange(
                            len0,
                            final(population).members@.len() as int,
                        ),
                        old(population).members@,
                        (free * (params.crossover_percent as int)) / 1000 + (free * (
                        params.mutation_percent as int)) / 1000,
                        parents,
                    )
            }),
    {
        let len = population.len();
        let capacity = population.capacity();
        let free = capacity - len;
        if free == 0 {
            proof {
                assert(population.members@.subrange(0, len as int) =~= population.members@);
                let f = old(population).capacity - old(population).members@.len() as int;
                assert(f == 0);
                assert(f * (params.crossover_percent as int) == 0);
                assert(f * (params.mutation_percent as int) == 0);
                vstd::arithmetic::div_mod::lemma_div_of0(1000);
                assert(duplicates_without_replacement(
                    population.members@.subrange(len as int, population.members@.len() as int),
                    old(population).members@,
                    (f * (params.crossover_percent as int)) / 1000 + (f * (
                    params.mutation_percent as int)) / 1000,
                    Seq::<int>::empty(),
                ));
            }
            return ;
        }
        proof {
            let f = free as int;
            let m = params.mutation_percent as int;
            let c = params.crossover_percent as int;
            assert(f * m <= 1000000000 && f * c <= 1000000000 && f * m >= 0 && f * c
                >= 0) by (nonlinear_arith)
                requires
                    0 <= f <= 1000000,
                    0 <= m <= 1000,
                    0 <= c <= 1000,
            ;
        }
        let mut n_mutations = (free * (params.mutation_percent as usize)) / 1000;
        let mut n_crossovers = (free * (params.crossover_percent as usize)) / 1000;
        let ghost g_nmut = n_mutations as int;
        let ghost g_ncx = n_crossovers as int;
        let ghost survivors = old(population).members@;
        proof {
            let f = free as int;
            let m = params.mutation_percent as int;
            let c = params.crossover_percent as int;
            lemma_fundamental_div_mod(f * m, 1000);
            lemma_fundamental_div_mod(f * c, 1000);
            assert(f * m + f * c <= f * 1000) by (nonlinear_arith)
                requires
                    m + c <= 1000,
                    f >= 0,
                    m >= 0,
                    c >= 0,
            ;
            assert(f * m >= 0 && f * c >= 0) by (nonlinear_arith)
                requires
                    f >= 0,
                    m >= 0,
                    c >= 0,
            ;
            lemma_div_is_ordered(0, f * m, 1000);
            lemma_div_is_ordered(0, f * c, 1000);
            assert(1000 * ((f * m) / 1000) + 1000 * ((f * c) / 1000) <= 1000 * f);
            assert(n_mutations + n_crossovers <= free);
        }
        while n_crossovers > 0 || n_mutations > 0
            invariant
                population.wf(),
                population.capacity == old(population).capacity,
                params.wf(),
                1 <= len <= population.members@.len(),
                population.members@.len() + n_crossovers + n_mutations <= population.capacity,
                population.members@.subrange(0, len as int) =~= old(population).members@,
                len == old(population).members@.len(),
                survivors == old(population).members@,
                orgs_ok(population.members@, &params.program_parameters),
                forall|i: int|
                    len <= i < population.members@.len() ==> (
                    #[trigger] population.members@[i].fitness_spec()) is NotEvaluated,
                g_ncx == (((population.capacity - len) as int) * (params.crossover_percent
                    as int)) / 1000,
                g_nmut == (((population.capacity - len) as int) * (params.mutation_percent
                    as int)) / 1000,
                n_crossovers as int <= g_ncx,
                n_mutations as int <= g_nmut,
                n_crossovers > 0 && n_mutations > 0 ==> g_ncx - n_crossovers == g_nmut
                    - n_mutations,
                n_mutations == 0 && n_crossovers > 0 ==> g_ncx - n_crossovers >= g_nmut,
                n_crossovers == 0 && n_mutations > 0 ==> g_nmut - n_mutations >= g_ncx,
                population.members@.len() == len + (g_ncx - n_crossovers) + (g_nmut
                    - n_mutations),
                appended_ok(
                    population.members@.subrange(len as int, population.members@.len() as int),
                    survivors,
                    g_ncx,
                    g_nmut,
                ),
            decreases n_crossovers + n_mutations,
        {
            let ghost top_ncx = n_crossovers as int;
            let ghost top_nmut = n_mutations as int;
            let ia = rand_below(rng, len);
            let ib = rand_below(rng, len);
            if n_crossovers > 0 {
                let ghost pre = population.members@;
                let child = {
                    let parent_a = population.get(ia);
                    let parent_b = population.get(ib);
                    proof {
                        Self::O::lemma_compatible_breeds(
                            parent_a,
                            parent_b,
                            &params.program_parameters,
                        );
                    }
                    let children = parent_a.two_point_crossover(parent_b, rng);
                    let pick_first = rand_below(rng, 2) == 0;
                    let picked = if pick_first {
                        children.0
                    } else {
                        children.1
                    };
                    proof {
                        Self::O::lemma_compatible_from_shape(
                            parent_a,
                            &picked,
                            &params.program_parameters,
                        );
                    }
                    picked
                };
                population.push(child);
                n_crossovers -= 1;
                proof {
                    assert(population.members@.subrange(0, len as int) =~= old(
                        population,
                    ).members@);
                    let pre_app = pre.subrange(len as int, pre.len() as int);
                    assert(appended_kind(pre_app.len() as int, g_ncx, g_nmut) == 0);
                    assert(child.child_of_crossover(&survivors[ia as int], &survivors[ib as int]));
                    lemma_appended_push(pre_app, child, survivors, g_ncx, g_nmut);
                    assert(population.members@.subrange(
                        len as int,
                        population.members@.len() as int,
                    ) =~= pre_app.push(child));
                }
            }
            if n_mutations > 0 {
                let ghost pre = population.members@;
                let pidx = if rand_below(rng, 2) == 0 {
                    ia
                } else {
                    ib
                };
                let child = population.get(pidx).mutate(&params.program_parameters, rng);
                population.push(child);
                n_mutations -= 1;
                proof {
                    assert(population.members@.subrange(0, len as int) =~= old(
                        population,
                    ).members@);
                    let pre_app = pre.subrange(len as int, pre.len() as int);
                    assert(appended_kind(pre_app.len() as int, g_ncx, g_nmut) == 1) by {
                        if top_ncx > 0 {
                            assert(g_ncx - top_ncx == g_nmut - top_nmut);
                        } else {
                            assert(g_nmut - top_nmut >= g_ncx);
                        }
                    }
                    assert(child.child_of_mutation(&survivors[pidx as int]));
                    lemma_appended_push(pre_app, child, survivors, g_ncx, g_nmut);
                    assert(population.members@.subrange(
                        len as int,
                        population.members@.len() as int,
                    ) =~= pre_app.push(child));
                }
            }
        }
        // Fill the rest with fresh duplicates, drawing survivors without
        // replacement until a round exhausts them, then starting a new round.
        let mut pool: Vec<usize> = Vec::new();
        let mut j: usize = 0;
        while j < len
            invariant
                j <= len,
                pool@.len() == j,
                forall|k: int| 0 <= k < j ==> (#[trigger] pool@[k]) == k,
            decreases len - j,
        {
            pool.push(j);
            j += 1;
        }
        let mut next: usize = 0;
        let ghost mut parent_log: Seq<int> = Seq::empty();
        let ghost mut round_count: int = 0;
        let ghost mut round_start: int = 0;
        while population.len() < population.capacity()
            invariant
                population.wf(),
                population.capacity == old(population).capacity,
                params.wf(),
                1 <= len <= population.members@.len(),
                pool@.len() == len,
                next <= len,
                forall|k: int| 0 <= k < len ==> (#[trigger] pool@[k]) < len,
                forall|i: int, i2: int| 0 <= i < i2 < len ==> pool@[i] != pool@[i2],
                population.members@.subrange(0, len as int) =~= old(population).members@,
                len == old(population).members@.len(),
                survivors == old(population).members@,
                orgs_ok(population.members@, &params.program_parameters),
                forall|i: int|
                    len <= i < population.members@.len() ==> (
                    #[trigger] population.members@[i].fitness_spec()) is NotEvaluated,
                g_ncx == (((population.capacity - len) as int) * (params.crossover_percent
                    as int)) / 1000,
                g_nmut == (((population.capacity - len) as int) * (params.mutation_percent
                    as int)) / 1000,
                population.members@.len() == len + g_ncx + g_nmut + parent_log.len(),
                round_count >= 0,
                round_start == round_count * (len as int),
                0 <= round_start <= parent_log.len(),
                parent_log.len() - round_start == next as int,
                forall|k: int| 0 <= k < parent_log.len() ==> 0 <= #[trigger] parent_log[k] < len,
                forall|k: int|
                    round_start <= k < parent_log.len() ==> #[trigger] parent_log[k] == pool@[k
                        - round_start] as int,
                forall|k1: int, k2: int|
                    0 <= k1 < k2 < parent_log.len() && k1 / (len as int) == k2 / (len as int)
                        ==> parent_log[k1] != parent_log[k2],
                forall|k: int|
                    0 <= k < parent_log.len() ==> (#[trigger] population.members@[len + g_ncx
                        + g_nmut + k]).duplicate_of(&survivors[parent_log[k]]),
                appended_ok(
                    population.members@.subrange(len as int, population.members@.len() as int),
                    survivors,
                    g_ncx,
                    g_nmut,
                ),
            decreases population.capacity - population.members@.len(),
        {
            if next == len {
                next = 0;
                proof {
                    assert((round_count + 1) * (len as int) == round_count * (len as int) + (
                    len as int)) by (nonlinear_arith);
                    round_count = round_count + 1;
                    round_start = parent_log.len() as int;
                }
            }
            let pick = next + rand_below(rng, len - next);
            let ghost pool_old = pool@;
            let chosen: usize = pool[pick];
            let at_next: usize = pool[next];
            pool[pick] = at_next;
            pool[next] = chosen;
            proof {
                assert forall|i: int, i2: int| 0 <= i < i2 < len implies pool@[i]
                    != pool@[i2] by {
                    let a = if i == next as int {
                        pick as int
                    } else if i == pick as int {
                        next as int
                    } else {
                        i
                    };
                    let b = if i2 == next as int {
                        pick as int
                    } else if i2 == pick as int {
                        next as int
                    } else {
                        i2
                    };
                    assert(pool@[i] == pool_old[a]);
                    assert(pool@[i2] == pool_old[b]);
                    assert(a != b);
                }
            }
            let ghost pre = population.members@;
            let child = {
                let parent = population.get(chosen);
                let made = parent.duplicate_new();
                proof {
                    Self::O::lemma_compatible_from_shape(
                        parent,
                        &made,
                        &params.program_parameters,
                    );
                }
                made
            };
            population.push(child);
            proof {
                assert(population.members@.subrange(0, len as int) =~= old(population).members@);
                let pre_app = pre.subrange(len as int, pre.len() as int);
                assert(appended_kind(pre_app.len() as int, g_ncx, g_nmut) == 2);
                assert(child.duplicate_of(&survivors[chosen as int]));
                lemma_appended_push(pre_app, child, survivors, g_ncx, g_nmut);
                assert(population.members@.subrange(
                    len as int,
                    population.members@.len() as int,
                ) =~= pre_app.push(child));
                let dups_old = parent_log.len() as int;
                let l = len as int;
                assert(dups_old - round_start == next as int && (next as int) < l);
                parent_log = parent_log.push(chosen as int);
                assert(parent_log[dups_old] == pool@[next as int] as int);
                lemma_fundamental_div_mod_converse(
                    dups_old,
                    l,
                    round_count,
                    dups_old - round_start,
                );
                assert forall|k1: int|
                    0 <= k1 < dups_old && k1 / l == dups_old / l implies parent_log[k1]
                    != parent_log[dups_old] by {
                    lemma_fundamental_div_mod(k1, l);
                    vstd::arithmetic::div_mod::lemma_mod_division_less_than_divisor(k1, l);
                    assert(l * round_count == round_count * l) by (nonlinear_arith);
                    assert(k1 == l * round_count + k1 % l);
                    assert(round_start <= k1);
                    assert(k1 - round_start < next as int);
                    assert(parent_log[k1] == pool@[k1 - round_start] as int);
                    assert(pool@[k1 - round_start] != pool@[next as int]);
                }
            }
            next += 1;
        }
        proof {
            let appended = population.members@.subrange(
                len as int,
                population.members@.len() as int,
            );
            assert(appended.len() == g_ncx + g_nmut + parent_log.len());
            assert forall|k: int| 0 <= k < parent_log.len() implies appended[g_ncx + g_nmut
                + k].duplicate_of(&old(population).members@[parent_log[k]]) by {
                assert(appended[g_ncx + g_nmut + k] == population.members@[len + g_ncx + g_nmut
                    + k]);
            }
            assert(duplicates_without_replacement(
                appended,
                old(population).members@,
                g_ncx + g_nmut,
                parent_log,
            ));
        }
    }

}

/// Build the generation sequence for a validated configuration: it starts
/// at generation zero with a full, unevaluated population.
pub fn build<G: GeneticAlgorithm>(params: HyperParameters<G::O>, seed: u64) -> (r:
    GeneticAlgorithmIter<G>)
    requires
        params.wf(),
    ensures
        r.wf(),
        r.generation == 0,
        r.next_population is Some,
        r.next_population->Some_0.members@.len() == params.population_size,
        r.params.population_size == params.population_size,
        r.params.gap == params.gap,
        r.params.mutation_percent == params.mutation_percent,
        r.params.crossover_percent == params.crossover_percent,
        r.params.n_generations == params.n_generations,
        r.params.program_parameters == params.program_parameters,
{
    GeneticAlgorithmIter::<G>::new(params, seed)
}

/// An exact copy of a population, organism by organism: same length and
/// capacity, and slot by slot the same shape and fitness.
fn replicate_population<O: Organism>(pop: &Population<O>) -> (r: Population<O>)
    requires
        pop.wf(),
        forall|i: int| 0 <= i < pop.members@.len() ==> (#[trigger] pop.members@[i]).well_formed(),
    ensures
        r.wf(),
        r.capacity == pop.capacity,
        r.members@.len() == pop.members@.len(),
        forall|i: int|
            0 <= i < r.members@.len() ==> {
                &&& (#[trigger] r.members@[i]).well_formed()
                &&& r.members@[i].shape() == pop.members@[i].shape()
                &&& r.members@[i].fitness_spec() == pop.members@[i].fitness_spec()
            },
{
    let n = pop.len();
    let mut copy: Population<O> = Population::new(pop.capacity());
    let mut i: usize = 0;
    while i < n
        invariant
            i <= n,
            n == pop.members@.len(),
            pop.wf(),
            copy.wf(),
            copy.capacity == pop.capacity,
            copy.members@.len() == i,
            forall|k: int|
                0 <= k < pop.members@.len() ==> (#[trigger] pop.members@[k]).well_formed(),
            forall|k: int|
                0 <= k < i ==> {
                    &&& (#[trigger] copy.members@[k]).well_formed()
                    &&& copy.members@[k].shape() == pop.members@[k].shape()
                    &&& copy.members@[k].fitness_spec() == pop.members@[k].fitness_spec()
                },
        decreases n - i,
    {
        let twin = pop.get(i).replicate();
        copy.push(twin);
        i += 1;
    }
    copy
}

/// The lazy sequence of generations: each pull drives one generation to
/// completion and returns the ranked, pre-variation snapshot.  It yields
/// `n_generations + 1` snapshots — generation zero through `n_generations` —
/// then ends; it ends early only if selection ever removes every organism,
/// which the caller observes as an early `None`.
pub struct GeneticAlgorithmIter<G: GeneticAlgorithm> {
    pub generation: usize,
    pub next_population: Option<Population<G::O>>,
    pub params: HyperParameters<G::O>,
    pub rng: rand::rngs::StdRng,
    pub marker: PhantomData<G>,
}

impl<G: GeneticAlgorithm> GeneticAlgorithmIter<G> {
    pub open spec fn wf(&self) -> bool {
        &&& self.params.wf()
        &&& match self.next_population {
            Some(p) => {
                &&& p.wf()
                &&& p.capacity == self.params.population_size
                &&& p.members@.len() == self.params.population_size
                &&& orgs_ok(p.members@, &self.params.program_parameters)
            },
            None => true,
        }
    }

    /// Run the pre-init hook, seed the generator, and sample generation
    /// zero's population: a fresh iterator holds a full, unevaluated
    /// population and the given configuration, with only the fitness
    /// parameters possibly retuned by the hook.
    pub fn new(params: HyperParameters<G::O>, seed: u64) -> (r: Self)
        requires
            params.wf(),
        ensures
            r.wf(),
            r.generation == 0,
            r.next_population is Some,
            r.next_population->Some_0.members@.len() == params.population_size,
            forall|i: int|
                0 <= i < r.next_population->Some_0.members@.len() ==> (
                #[trigger] r.next_population->Some_0.members@[i].fitness_spec())
                    is NotEvaluated,
            r.params.population_size == params.population_size,
            r.params.gap == params.gap,
            r.params.mutation_percent == params.mutation_percent,
            r.params.crossover_percent == params.crossover_percent,
            r.params.n_generations == params.n_generations,
            r.params.program_parameters == params.program_parameters,
    {
        let mut params = params;
        G::on_pre_init(&mut params);
        let mut rng = rng_from_seed(seed);
        let population = G::init_pop(&params, &mut rng);
        GeneticAlgorithmIter {
            generation: 0,
            next_population: Some(population),
            params,
            rng,
            marker: PhantomData,
        }
    }

    /// Drive one generation: hooks, evaluation, ranking — then yield the
    /// ranked snapshot, in which every organism is well formed and none is
    /// unevaluated, while selection and variation prepare the next
    /// population at full capacity.  The prepared population exists exactly
    /// when selection leaves a survivor of the yielded snapshot.
    #[verifier::rlimit(60)]
    pub fn next(&mut self) -> (r: Option<Population<G::O>>)
        requires
            old(self).wf(),
        ensures
            final(self).wf(),
            (r is None) <==> (old(self).generation > old(self).params.n_generations || old(
                self,
            ).next_population is None),
            r is None ==> *final(self) == *old(self),
            r is Some ==> final(self).generation == old(self).generation + 1,
            r matches Some(pop) ==> ((final(self).next_population is Some) <==> has_survivor(
                pop.members@,
                old(self).params.gap as int,
            )),
            r matches Some(pop) ==> snapshot_of(
                pop.members@,
                old(self).next_population->Some_0.members@,
            ),
            r matches Some(pop) ==> (final(self).next_population is Some ==> prepared_of(
                final(self).next_population->Some_0.members@,
                pop.members@,
                old(self).params.gap as int,
                old(self).params.population_size as int,
                old(self).params.crossover_percent as int,
                old(self).params.mutation_percent as int,
            )),
            r matches Some(pop) ==> {
                &&& pop.wf()
                &&& pop.sorted()
                &&& pop.members@.len() == old(self).params.population_size
                &&& all_evaluated(pop.members@)
                &&& forall|i: int|
                    0 <= i < pop.members@.len() ==> (#[trigger] pop.members@[i]).well_formed()
            },
    {
        if self.generation > self.params.n_generations {
            return None;
        }
        let taken = self.next_population.take();
        let mut population = match taken {
            None => {
                return None;
            },
            Some(p) => p,
        };
        let ghost prepared = population.members@;
        G::on_pre_eval_fitness(&population, &mut self.params);
        G::eval_fitness(&mut population, &mut self.params, &mut self.rng);
        let ghost evaluated_members = population.members@;
        G::on_pre_rank(&population, &mut self.params);
        G::rank(&mut population, &self.params);
        G::on_post_rank(&population, &mut self.params);
        proof {
            assert(prepared == old(self).next_population->Some_0.members@);
            assert(population.members@.to_multiset() == evaluated_members.to_multiset());
            assert(snapshot_of(population.members@, prepared));
        }
        let mut next_pop = replicate_population(&population);
        proof {
            assert forall|i: int| 0 <= i < next_pop.members@.len() implies {
                &&& (#[trigger] next_pop.members@[i]).well_formed()
                &&& next_pop.members@[i].compatible(&self.params.program_parameters)
            } by {
                G::O::lemma_compatible_from_shape(
                    &population.members@[i],
                    &next_pop.members@[i],
                    &self.params.program_parameters,
                );
            }
            assert(next_pop.sorted());
            assert(all_evaluated(next_pop.members@));
        }
        let ghost pre_survive = next_pop.members@;
        G::survive(&mut next_pop, &self.params);
        let ghost kept = next_pop.members@;
        proof {
            let pop_m = population.members@;
            assert forall|p: int| #[trigger] is_oob_prefix_len(pre_survive, p)
                == is_oob_prefix_len(pop_m, p) by {
                if is_oob_prefix_len(pre_survive, p) {
                    assert forall|k: int| 0 <= k < p implies (
                    #[trigger] pop_m[k].fitness_spec()) is OutOfBounds by {
                        assert(pre_survive[k].fitness_spec() is OutOfBounds);
                    }
                    assert(is_oob_prefix_len(pop_m, p));
                }
                if is_oob_prefix_len(pop_m, p) {
                    assert forall|k: int| 0 <= k < p implies (
                    #[trigger] pre_survive[k].fitness_spec()) is OutOfBounds by {
                        assert(pop_m[k].fitness_spec() is OutOfBounds);
                    }
                    assert(is_oob_prefix_len(pre_survive, p));
                }
            }
            assert forall|p1: int, p2: int|
                #![trigger is_oob_prefix_len(pop_m, p1), is_oob_prefix_len(pop_m, p2)]
                is_oob_prefix_len(pop_m, p1) && is_oob_prefix_len(pop_m, p2) implies p1
                == p2 by {
                if p1 < p2 {
                    assert(pop_m[p1].fitness_spec() is OutOfBounds);
                }
                if p2 < p1 {
                    assert(pop_m[p2].fitness_spec() is OutOfBounds);
                }
            }
            let gap = self.params.gap as int;
            assert(gap == old(self).params.gap as int);
            let p0 = choose|p: int|
                #[trigger] is_oob_prefix_len(pre_survive, p) && next_pop.members@
                    == pre_survive.subrange(
                    drop_total(pre_survive.len() as int, p, gap),
                    pre_survive.len() as int,
                );
            assert(is_oob_prefix_len(pop_m, p0));
            assert(next_pop.members@.len() == pre_survive.len() - drop_total(
                pre_survive.len() as int,
                p0,
                gap,
            ));
            assert(pre_survive.len() == pop_m.len());
            if next_pop.members@.len() > 0 {
                assert(drop_total(pop_m.len() as int, p0, gap) < pop_m.len() as int);
            } else {
                assert forall|p: int| #[trigger] is_oob_prefix_len(pop_m, p) implies !(
                drop_total(pop_m.len() as int, p, gap) < pop_m.len() as int) by {
                    assert(p == p0);
                }
            }
        }
        if next_pop.len() == 0 {
            self.next_population = None;
        } else {
            G::variation(&mut next_pop, &self.params, &mut self.rng);
            proof {
                let pop_m = population.members@;
                let gap = self.params.gap as int;
                let p1 = choose|p: int|
                    #[trigger] is_oob_prefix_len(pre_survive, p) && kept == pre_survive.subrange(
                        drop_total(pre_survive.len() as int, p, gap),
                        pre_survive.len() as int,
                    );
                assert(is_oob_prefix_len(pop_m, p1));
                let d = drop_total(pop_m.len() as int, p1, gap);
                let n_kept = pop_m.len() - d;
                assert(kept.len() == n_kept);
                let final_next = next_pop.members@;
                assert(final_next.subrange(0, n_kept as int) == kept);
                assert(final_next.len() == self.params.population_size);
                assert forall|i: int| 0 <= i < n_kept implies {
                    &&& (#[trigger] final_next[i]).shape() == pop_m[d + i].shape()
                    &&& final_next[i].fitness_spec() == pop_m[d + i].fitness_spec()
                } by {
                    assert(final_next[i] == kept[i]);
                    assert(kept[i] == pre_survive[d + i]);
                }
                assert(appended_ok(
                    final_next.subrange(n_kept as int, final_next.len() as int),
                    final_next.subrange(0, n_kept as int),
                    (((self.params.population_size - n_kept) as int) * (
                    self.params.crossover_percent as int)) / 1000,
                    (((self.params.population_size - n_kept) as int) * (
                    self.params.mutation_percent as int)) / 1000,
                ));
                assert(prepared_of(
                    final_next,
                    pop_m,
                    old(self).params.gap as int,
                    old(self).params.population_size as int,
                    old(self).params.crossover_percent as int,
                    old(self).params.mutation_percent as int,
                ));
            }
            self.next_population = Some(next_pop);
        }
        self.generation = self.generation + 1;
        proof {
            assert((self.next_population is Some) <==> has_survivor(
                population.members@,
                old(self).params.gap as int,
            ));
        }
        Some(population)
    }
}

/// Organisms of a permutation all come from the original sequence.
proof fn lemma_permutation_members<O>(a: Seq<O>, b: Seq<O>)
    requires
        a.to_multiset() == b.to_multiset(),
    ensures
        forall|i: int| 0 <= i < b.len() ==> a.contains(#[trigger] b[i]),
{
    assert forall|i: int| 0 <= i < b.len() implies a.contains(#[trigger] b[i]) by {
        assert(b.contains(b[i]));
        assert(b.to_multiset().count(b[i]) > 0);
    }
}

} // verus!
