//! What Q-learning asks of an environment: session hooks, placement at an
//! initial state, one simulation step at a time, and a reset.  The engine
//! consumes this contract only; concrete environments live outside the
//! library and hand back plain values, of which the engine assumes nothing.

use vstd::prelude::*;

verus! {

/// One simulation step's outcome: an integer reward and whether the episode
/// ended.
#[derive(Clone, Copy, Debug, PartialEq, Eq, Structural)]
pub struct StepResult {
    pub reward: i64,
    pub terminal: bool,
}

impl StepResult {
    pub fn get_value(&self) -> (r: i64)
        ensures
            r == self.reward,
    {
        self.reward
    }

    pub fn is_terminal(&self) -> (r: bool)
        ensures
            r == self.terminal,
    {
        self.terminal
    }
}

/// An environment a program can act in.  Nothing is assumed of any of these
/// calls: the engine states what holds of its own state whatever they hand
/// back.  In particular `flat` carries no contract, so the engine checks the
/// arity of every state it receives and treats a mismatch as out of bounds.
pub trait ReinforcementLearningInput: Sized {
    type State;

    /// The current state, flattened for the register machine.
    fn flat(&self) -> Vec<i64>;

    /// Session start.
    fn init(&mut self);

    /// Place the environment at a specific initial state.
    fn update_state(&mut self, state: &Self::State);

    /// Advance one step under the given action.
    fn sim(&mut self, action: usize) -> StepResult;

    /// Return to a default state.
    fn reset(&mut self);

    /// Session end.
    fn finish(&mut self);
}

/// Upper bound on the number of initial states of one evaluation.
pub const MAX_INITIAL_STATES: usize = 1000000;

pub struct ReinforcementLearningParameters<T: ReinforcementLearningInput> {
    pub initial_states: Vec<T::State>,
    pub max_episode_length: usize,
    pub environment: T,
}

impl<T: ReinforcementLearningInput> ReinforcementLearningParameters<T> {
    /// At least one initial state: the median over the trials needs one.
    pub open spec fn wf(&self) -> bool {
        1 <= self.initial_states@.len() <= MAX_INITIAL_STATES
    }

    pub fn new(initial_states: Vec<T::State>, max_episode_length: usize, environment: T) -> (r:
        Self)
        ensures
            r.initial_states@ == initial_states@,
            r.max_episode_length == max_episode_length,
    {
        ReinforcementLearningParameters { initial_states, max_episode_length, environment }
    }
}

} // verus!
