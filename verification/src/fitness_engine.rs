//! Fitness scores and the scoring capability.
//!
//! A score is `Valid(v)` for a program that produced a decision on every
//! input, `OutOfBounds` for one whose arithmetic left the representable
//! range or that failed to produce a decision, and `NotEvaluated` before any
//! evaluation.  The order is total: `NotEvaluated` and `OutOfBounds` are
//! equivalent and sit below every `Valid`; two `Valid` scores compare by
//! value.

use core::cmp::Ordering;
use vstd::prelude::*;

verus! {

#[derive(Clone, Copy, Debug, PartialEq, Eq, Structural)]
pub enum FitnessScore {
    Valid(i64),
    OutOfBounds,
    NotEvaluated,
}

/// `a` is at or below `b` in the fitness order.
pub open spec fn fs_le(a: FitnessScore, b: FitnessScore) -> bool {
    match (a, b) {
        (FitnessScore::Valid(x), FitnessScore::Valid(y)) => x <= y,
        (FitnessScore::Valid(_), _) => false,
        (_, FitnessScore::Valid(_)) => true,
        _ => true,
    }
}

/// `a` is strictly above `b` in the fitness order.
pub open spec fn fs_gt(a: FitnessScore, b: FitnessScore) -> bool {
    !fs_le(a, b)
}

/// `a` and `b` occupy the same position in the fitness order.
pub open spec fn fs_equiv(a: FitnessScore, b: FitnessScore) -> bool {
    fs_le(a, b) && fs_le(b, a)
}

pub open spec fn fs_partial_cmp(a: FitnessScore, b: FitnessScore) -> Option<Ordering> {
    match (a, b) {
        (FitnessScore::Valid(x), FitnessScore::Valid(y)) => if x < y {
            Some(Ordering::Less)
        } else if x == y {
            Some(Ordering::Equal)
        } else {
            Some(Ordering::Greater)
        },
        (FitnessScore::Valid(_), _) => Some(Ordering::Greater),
        (_, FitnessScore::Valid(_)) => Some(Ordering::Less),
        _ => Some(Ordering::Equal),
    }
}

impl PartialOrd for FitnessScore {
    fn partial_cmp(&self, other: &Self) -> (r: Option<Ordering>) {
        match (self, other) {
            (FitnessScore::Valid(x), FitnessScore::Valid(y)) => if x < y {
                Some(Ordering::Less)
            } else if x == y {
                Some(Ordering::Equal)
            } else {
                Some(Ordering::Greater)
            },
            (FitnessScore::Valid(_), _) => Some(Ordering::Greater),
            (_, FitnessScore::Valid(_)) => Some(Ordering::Less),
            _ => Some(Ordering::Equal),
        }
    }
}

impl vstd::std_specs::cmp::PartialOrdSpecImpl for FitnessScore {
    open spec fn obeys_partial_cmp_spec() -> bool {
        true
    }

    open spec fn partial_cmp_spec(&self, other: &Self) -> Option<Ordering> {
        fs_partial_cmp(*self, *other)
    }
}

impl FitnessScore {
    /// Forget any earlier evaluation.
    pub fn reset(&mut self)
        ensures
            *final(self) == FitnessScore::NotEvaluated,
    {
        *self = FitnessScore::NotEvaluated;
    }

    pub fn is_not_evaluated(&self) -> (r: bool)
        ensures
            r <==> (*self is NotEvaluated),
    {
        match self {
            FitnessScore::NotEvaluated => true,
            _ => false,
        }
    }

    /// Only an out-of-bounds score is invalid; an unevaluated one is not.
    pub fn is_invalid(&self) -> (r: bool)
        ensures
            r <==> (*self is OutOfBounds),
    {
        match self {
            FitnessScore::Valid(_) | FitnessScore::NotEvaluated => false,
            _ => true,
        }
    }

    pub fn unwrap_or(&self, value: i64) -> (r: i64)
        ensures
            r == (if *self is Valid { self->Valid_0 } else { value }),
    {
        match self {
            FitnessScore::Valid(score) => *score,
            _ => value,
        }
    }

    /// The value of a score known to be `Valid`.
    pub fn unwrap(&self) -> (r: i64)
        requires
            *self is Valid,
        ensures
            r == self->Valid_0,
    {
        match self {
            FitnessScore::Valid(score) => *score,
            _ => 0,
        }
    }
}

/// Decide `fs_le` for two scores.
pub fn fitness_le(a: FitnessScore, b: FitnessScore) -> (r: bool)
    ensures
        r == fs_le(a, b),
{
    match (a, b) {
        (FitnessScore::Valid(x), FitnessScore::Valid(y)) => x <= y,
        (FitnessScore::Valid(_), _) => false,
        (_, FitnessScore::Valid(_)) => true,
        _ => true,
    }
}

/// The fitness order is total: it is reflexive, transitive, antisymmetric up
/// to equivalence, and any two scores are comparable.  `Valid` scores compare
/// by value and sit strictly above `OutOfBounds` and `NotEvaluated`, which
/// are equivalent to one another.
pub proof fn lemma_fitness_score_total_order(a: FitnessScore, b: FitnessScore, c: FitnessScore)
    ensures
        fs_le(a, a),
        fs_le(a, b) || fs_le(b, a),
        fs_le(a, b) && fs_le(b, c) ==> fs_le(a, c),
        fs_equiv(a, b) <==> (fs_le(a, b) && fs_le(b, a)),
        forall|x: i64, y: i64|
            fs_gt(FitnessScore::Valid(x), FitnessScore::Valid(y)) <==> x > y,
        forall|x: i64| fs_gt(FitnessScore::Valid(x), FitnessScore::OutOfBounds),
        forall|x: i64| fs_gt(FitnessScore::Valid(x), FitnessScore::NotEvaluated),
        fs_equiv(FitnessScore::NotEvaluated, FitnessScore::OutOfBounds),
{
}

/// The capability of being scored: an organism carries a fitness slot that an
/// evaluation fills.
pub trait Fitness: Sized {
    type FitnessParameters;

    /// The organism's internal invariant.
    spec fn well_formed(&self) -> bool;

    /// An abstract fingerprint of the organism's machine shape.  Evaluation,
    /// duplication and snapshots preserve it; compatibility with generator
    /// parameters depends on it alone.
    spec fn shape(&self) -> Seq<int>;

    /// The organism's current fitness slot.
    spec fn fitness_spec(&self) -> FitnessScore;

    /// What the evaluation needs of its parameters.
    spec fn fitness_params_wf(params: &Self::FitnessParameters) -> bool;

    /// Decide `fitness_params_wf` at run time.
    fn check_fitness_params(params: &Self::FitnessParameters) -> (r: bool)
        ensures
            r == Self::fitness_params_wf(params),
    ;

    /// Score the organism; afterwards its fitness slot is filled.
    fn eval_fitness(
        &mut self,
        params: &mut Self::FitnessParameters,
        rng: &mut rand::rngs::StdRng,
    )
        requires
            old(self).well_formed(),
            Self::fitness_params_wf(old(params)),
        ensures
            final(self).well_formed(),
            final(self).shape() == old(self).shape(),
            !(final(self).fitness_spec() is NotEvaluated),
            Self::fitness_params_wf(final(params)),
    ;

    fn get_fitness(&self) -> (r: FitnessScore)
        ensures
            r == self.fitness_spec(),
    ;
}

/// Marker for the engine's scoring machinery; the domain adapters implement
/// `Fitness` against it.
pub struct FitnessEngine;

} // verus!
