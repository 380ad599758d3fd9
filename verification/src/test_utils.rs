//! Fixtures for exercising the engine: a small labeled input for binary
//! classification and a scripted environment whose episode returns are
//! known in advance.

use vstd::prelude::*;

use crate::classification::ClassificationInput;
use crate::inputs::ValidInput;
use crate::reinforcement_learning::{ReinforcementLearningInput, StepResult};

verus! {

/// A labeled input: four feature cells and a class label in the last slot.
#[derive(Clone, Copy, Debug)]
pub struct TestInput(pub [i64; 5]);

/// The two classes of the binary task.
#[derive(Clone, Copy, Debug, PartialEq, Eq, Structural)]
pub enum TestRepresent {
    One,
    Two,
}

impl TestRepresent {
    /// The class index this label stands for.
    pub fn as_class(&self) -> (r: usize)
        ensures
            r == (if *self is One {
                0int
            } else {
                1int
            }),
    {
        match self {
            TestRepresent::One => 0,
            TestRepresent::Two => 1,
        }
    }

    /// The label of a class index; only zero and one name a class.
    pub fn from_class(class: usize) -> (r: Option<TestRepresent>)
        ensures
            r == (if class == 0 {
                Some(TestRepresent::One)
            } else if class == 1 {
                Some(TestRepresent::Two)
            } else {
                None::<TestRepresent>
            }),
    {
        if class == 0 {
            Some(TestRepresent::One)
        } else if class == 1 {
            Some(TestRepresent::Two)
        } else {
            None
        }
    }
}

impl ValidInput for TestInput {
    /// The four feature cells, in order.
    open spec fn flat_spec(&self) -> Seq<i64> {
        seq![self.0@[0], self.0@[1], self.0@[2], self.0@[3]]
    }

    fn flat(&self) -> (r: Vec<i64>) {
        let mut flattened: Vec<i64> = Vec::new();
        flattened.push(self.0[0]);
        flattened.push(self.0[1]);
        flattened.push(self.0[2]);
        flattened.push(self.0[3]);
        proof {
            assert(flattened@ =~= self.flat_spec());
        }
        flattened
    }
}

impl ClassificationInput for TestInput {
    /// The label cell names class one exactly when it holds a one.
    open spec fn class_spec(&self) -> int {
        if self.0@[4] == 1i64 {
            1
        } else {
            0
        }
    }

    fn get_class(&self) -> (r: usize) {
        if self.0[4] == 1 {
            1
        } else {
            0
        }
    }
}

/// A scripted environment: every step's reward is the placed state value,
/// and an episode ends after a fixed number of steps.  Each episode's
/// return is therefore known in advance, which pins the engine's
/// median-of-trials bookkeeping in tests.
#[derive(Clone, Copy, Debug)]
pub struct TestRlInput {
    pub current: i64,
    pub steps_per_episode: usize,
    pub step_count: usize,
}

impl TestRlInput {
    pub fn new(steps_per_episode: usize) -> (r: Self)
        ensures
            r.current == 0,
            r.steps_per_episode == steps_per_episode,
            r.step_count == 0,
    {
        TestRlInput { current: 0, steps_per_episode, step_count: 0 }
    }
}

impl ReinforcementLearningInput for TestRlInput {
    type State = i64;

    /// One input cell: the placed state value.
    fn flat(&self) -> (r: Vec<i64>)
        ensures
            r@ == seq![self.current],
    {
        let mut flattened: Vec<i64> = Vec::new();
        flattened.push(self.current);
        flattened
    }

    fn init(&mut self) {
    }

    fn update_state(&mut self, state: &i64) {
        self.current = *state;
        self.step_count = 0;
    }

    fn sim(&mut self, action: usize) -> StepResult {
        if self.step_count < usize::MAX {
            self.step_count = self.step_count + 1;
        }
        StepResult { reward: self.current, terminal: self.step_count >= self.steps_per_episode }
    }

    fn reset(&mut self) {
        self.step_count = 0;
    }

    fn finish(&mut self) {
    }
}

} // verus!
