//! The capability set that the evolutionary driver asks of any evolvable
//! type: sampling a fresh organism, mutation, crossover, duplication as a
//! reset template, an exact copy for snapshots — and, through the `Fitness`
//! supertrait, evaluation and a fitness slot.

use vstd::prelude::*;

use crate::fitness_engine::Fitness;

verus! {

pub trait Organism: Fitness {
    type GeneratorParameters;

    /// What generation and mutation need of their parameters.
    spec fn gen_params_wf(p: &Self::GeneratorParameters) -> bool;

    /// Decide `gen_params_wf` at run time.
    fn check_gen_params(p: &Self::GeneratorParameters) -> (r: bool)
        ensures
            r == Self::gen_params_wf(p),
    ;

    /// The organism's machine has the shape that `p` describes.
    spec fn compatible(&self, p: &Self::GeneratorParameters) -> bool;

    /// The two organisms' machines have the same shape, so they may breed.
    spec fn breeds_with(&self, other: &Self) -> bool;

    /// `self` could be a child of crossing `a` with `b`: heritable material
    /// exchanged between the two parents, learned and mutable state reset.
    spec fn child_of_crossover(&self, a: &Self, b: &Self) -> bool;

    /// `self` could be a child of mutating `parent`: the parent's heritable
    /// material under one edit, learned and mutable state reset.
    spec fn child_of_mutation(&self, parent: &Self) -> bool;

    /// `self` could be a fresh duplicate of `parent`: the same heritable
    /// material, learned and mutable state reset.
    spec fn duplicate_of(&self, parent: &Self) -> bool;

    /// Compatibility is a property of the shape alone.
    proof fn lemma_compatible_from_shape(a: &Self, b: &Self, p: &Self::GeneratorParameters)
        requires
            a.shape() == b.shape(),
            a.compatible(p),
        ensures
            b.compatible(p),
    ;

    /// Organisms shaped by the same parameters can breed.
    proof fn lemma_compatible_breeds(a: &Self, b: &Self, p: &Self::GeneratorParameters)
        requires
            a.compatible(p),
            b.compatible(p),
        ensures
            a.breeds_with(b),
    ;

    fn generate(p: &Self::GeneratorParameters, rng: &mut rand::rngs::StdRng) -> (r: Self)
        requires
            Self::gen_params_wf(p),
        ensures
            r.well_formed(),
            r.compatible(p),
            r.fitness_spec() is NotEvaluated,
    ;

    /// A mutated copy; the parent is untouched.
    fn mutate(&self, p: &Self::GeneratorParameters, rng: &mut rand::rngs::StdRng) -> (r: Self)
        requires
            self.well_formed(),
            Self::gen_params_wf(p),
            self.compatible(p),
        ensures
            r.well_formed(),
            r.compatible(p),
            r.fitness_spec() is NotEvaluated,
            r.child_of_mutation(self),
    ;

    /// Two children made by exchanging one chunk of each parent.
    fn two_point_crossover(&self, mate: &Self, rng: &mut rand::rngs::StdRng) -> (r: (Self, Self))
        requires
            self.well_formed(),
            mate.well_formed(),
            self.breeds_with(mate),
        ensures
            r.0.well_formed(),
            r.1.well_formed(),
            r.0.shape() == self.shape(),
            r.1.shape() == self.shape(),
            r.0.fitness_spec() is NotEvaluated,
            r.1.fitness_spec() is NotEvaluated,
            r.0.child_of_crossover(self, mate),
            r.1.child_of_crossover(self, mate),
    ;

    /// A fresh template: same heritable material, learned and mutable state
    /// reset, fitness unevaluated.  The identity is fresh.
    fn duplicate_new(&self) -> (r: Self)
        requires
            self.well_formed(),
        ensures
            r.well_formed(),
            r.shape() == self.shape(),
            r.fitness_spec() is NotEvaluated,
            r.duplicate_of(self),
    ;

    /// An exact copy, fitness slot included, for generation snapshots.
    fn replicate(&self) -> (r: Self)
        requires
            self.well_formed(),
        ensures
            r.well_formed(),
            r.shape() == self.shape(),
            r.fitness_spec() == self.fitness_spec(),
    ;
}

} // verus!
