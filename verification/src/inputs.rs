//! What the engine asks of an input: a flattened integer vector that a
//! program can execute against.

use vstd::prelude::*;

verus! {

pub type Inputs<InputType> = Vec<InputType>;

/// A value a program can run on.  `flat` hands the register machine the
/// input cells; an input whose arity does not match the program is counted
/// against the program (a miss in classification, out of bounds in
/// reinforcement learning).
pub trait ValidInput: Sized {
    /// The input cells, as the contracts see them.
    spec fn flat_spec(&self) -> Seq<i64>;

    fn flat(&self) -> (r: Vec<i64>)
        ensures
            r@ == self.flat_spec(),
    ;
}

/// A plain labeled row: integer feature cells and a class index.  Callers
/// outside the library convert their data into rows of this type rather
/// than implementing the input traits themselves.
pub struct RowInput {
    pub features: Vec<i64>,
    pub class: usize,
}

impl RowInput {
    pub fn new(features: Vec<i64>, class: usize) -> (r: RowInput)
        ensures
            r.features@ == features@,
            r.class == class,
    {
        RowInput { features, class }
    }
}

impl ValidInput for RowInput {
    open spec fn flat_spec(&self) -> Seq<i64> {
        self.features@
    }

    fn flat(&self) -> (r: Vec<i64>) {
        let n = self.features.len();
        let mut out: Vec<i64> = Vec::new();
        let mut i: usize = 0;
        while i < n
            invariant
                i <= n,
                n == self.features@.len(),
                out@ =~= self.features@.subrange(0, i as int),
            decreases n - i,
        {
            out.push(self.features[i]);
            i += 1;
        }
        proof {
            assert(out@ =~= self.features@);
        }
        out
    }
}

impl crate::classification::ClassificationInput for RowInput {
    open spec fn class_spec(&self) -> int {
        self.class as int
    }

    fn get_class(&self) -> (r: usize) {
        self.class
    }
}

} // verus!
