//! A program: a stable identity, a non-empty ordered sequence of
//! instructions, an owned register vector and a fitness slot.  The type is
//! generic over the fitness-parameter type it will be scored against, so the
//! scoring adapters can attach their own evaluation to the same machinery.

use core::marker::PhantomData;
use vstd::prelude::*;

use crate::fitness_engine::FitnessScore;
use crate::instruction::{Instruction, InstructionGeneratorParameters};
use crate::instructions::{
    copy_instructions, crossed, two_point_crossover, valid_cuts,
};
use crate::registers::{reset_post, Registers};
use crate::rng::{fresh_id, rand_below};

verus! {

#[derive(Clone, Copy, Debug, PartialEq, Eq, Structural)]
pub struct ProgramGeneratorParameters {
    pub max_instructions: usize,
    pub instruction_generator_parameters: InstructionGeneratorParameters,
}

impl ProgramGeneratorParameters {
    pub open spec fn wf(&self) -> bool {
        &&& 1 <= self.max_instructions
        &&& self.max_instructions <= 1000000
        &&& self.instruction_generator_parameters.wf()
    }
}

/// `child` arises from `parent` by one of the three edits of mutation: one
/// instruction replaced by `ins` at `idx`, `ins` inserted at `idx` (only
/// below the instruction cap), or the instruction at `idx` deleted (only
/// above length one).
pub open spec fn mutated_from(
    child: Seq<Instruction>,
    parent: Seq<Instruction>,
    idx: int,
    ins: Instruction,
    cap: int,
) -> bool {
    ||| (0 <= idx < parent.len() && child == parent.update(idx, ins))
    ||| (parent.len() < cap && 0 <= idx <= parent.len() && child == parent.insert(idx, ins))
    ||| (parent.len() > 1 && 0 <= idx < parent.len() && child == parent.remove(idx))
}

/// `child` arises from `parent` by one edit: one instruction replaced by
/// `ins` at `idx`, `ins` inserted at `idx`, or the instruction at `idx`
/// deleted (only above length one).
pub open spec fn edited_from(
    child: Seq<Instruction>,
    parent: Seq<Instruction>,
    idx: int,
    ins: Instruction,
) -> bool {
    ||| (0 <= idx < parent.len() && child == parent.update(idx, ins))
    ||| (0 <= idx <= parent.len() && child == parent.insert(idx, ins))
    ||| (parent.len() > 1 && 0 <= idx < parent.len() && child == parent.remove(idx))
}

/// The register state and overflow mark after running `instrs` in order.
pub open spec fn run_instrs(
    instrs: Seq<Instruction>,
    data: Seq<i64>,
    flag: bool,
    input: Seq<i64>,
) -> (Seq<i64>, bool)
    decreases instrs.len(),
{
    if instrs.len() == 0 {
        (data, flag)
    } else {
        let step = instrs[0].apply_spec(data, flag, input);
        run_instrs(instrs.drop_first(), step.0, step.1, input)
    }
}

pub struct Program<F> {
    pub id: u128,
    pub instructions: Vec<Instruction>,
    pub registers: Registers,
    pub fitness: FitnessScore,
    pub n_inputs: usize,
    pub marker: PhantomData<F>,
}

impl<F> Program<F> {
    /// The program's invariant: a non-empty instruction sequence whose
    /// indices are in bounds for its own registers and input arity.
    pub open spec fn wf(&self) -> bool {
        &&& self.registers.wf()
        &&& 1 <= self.n_inputs
        &&& 1 <= self.instructions@.len()
        &&& forall|i: int|
            0 <= i < self.instructions@.len() ==> (#[trigger] self.instructions@[i]).wf(
                self.registers.data@.len() as int,
                self.n_inputs as int,
            )
    }

    /// The program's machine has the shape that `params` describes.
    pub open spec fn shaped_by(&self, params: &ProgramGeneratorParameters) -> bool {
        &&& self.registers.data@.len()
            == params.instruction_generator_parameters.n_registers_spec()
        &&& self.registers.n_actions == params.instruction_generator_parameters.n_actions
        &&& self.n_inputs == params.instruction_generator_parameters.n_inputs
    }

    /// Two programs drive machines of the same shape and may breed.
    pub open spec fn same_shape(&self, other: &Self) -> bool {
        &&& self.registers.data@.len() == other.registers.data@.len()
        &&& self.registers.n_actions == other.registers.n_actions
        &&& self.n_inputs == other.n_inputs
    }

    /// A freshly built child: zeroed registers, unevaluated fitness, the
    /// shape of its parent.
    pub open spec fn fresh_child_of(&self, parent: &Self) -> bool {
        &&& self.registers.data@ == reset_post(parent.registers.data@.len())
        &&& !self.registers.overflowed
        &&& self.fitness is NotEvaluated
        &&& self.same_shape(parent)
    }

    /// `self` could be a child of crossing `a` with `b`: its instructions
    /// are one of the two chunk exchanges at some cut points, and its
    /// mutable state starts fresh.
    pub open spec fn child_of_crossover_spec(&self, a: &Self, b: &Self) -> bool {
        &&& exists|i: int, j: int, k: int, l: int|
            {
                &&& #[trigger] valid_cuts(a.instructions@, i, j)
                &&& #[trigger] valid_cuts(b.instructions@, k, l)
                &&& (self.instructions@ == crossed(a.instructions@, b.instructions@, i, j, k, l)
                    || self.instructions@ == crossed(b.instructions@, a.instructions@, k, l, i, j))
            }
        &&& self.fresh_child_of(a)
    }

    /// `self` could be a child of mutating `parent`: the parent's
    /// instructions under one edit, and its mutable state starts fresh.
    pub open spec fn child_of_mutation_spec(&self, parent: &Self) -> bool {
        &&& exists|idx: int, ins: Instruction|
            #[trigger] edited_from(self.instructions@, parent.instructions@, idx, ins)
        &&& self.fresh_child_of(parent)
    }

    /// `self` could be a fresh duplicate of `parent`: the same instructions,
    /// and its mutable state starts fresh.
    pub open spec fn duplicate_of_spec(&self, parent: &Self) -> bool {
        &&& self.instructions@ == parent.instructions@
        &&& self.fresh_child_of(parent)
    }

    /// An element-wise copy: same identity, instructions, register state and
    /// fitness.
    pub fn replicate(&self) -> (r: Self)
        ensures
            r.id == self.id,
            r.instructions@ == self.instructions@,
            r.registers.data@ == self.registers.data@,
            r.registers.n_actions == self.registers.n_actions,
            r.registers.overflowed == self.registers.overflowed,
            r.fitness == self.fitness,
            r.n_inputs == self.n_inputs,
    {
        Program {
            id: self.id,
            instructions: copy_instructions(&self.instructions),
            registers: self.registers.clone(),
            fitness: self.fitness,
            n_inputs: self.n_inputs,
            marker: PhantomData,
        }
    }

    /// Execute every instruction in stored order against the program's own
    /// registers and the given input vector.  The result is the register
    /// state; an operation that left the 64-bit range has set the sticky
    /// overflow mark.
    pub fn exec(&mut self, input: &Vec<i64>)
        requires
            old(self).wf(),
            input@.len() == old(self).n_inputs,
        ensures
            final(self).wf(),
            final(self).id == old(self).id,
            final(self).instructions@ == old(self).instructions@,
            final(self).fitness == old(self).fitness,
            final(self).n_inputs == old(self).n_inputs,
            final(self).registers.n_actions == old(self).registers.n_actions,
            final(self).registers.data@.len() == old(self).registers.data@.len(),
            final(self).registers.data@ == run_instrs(
                old(self).instructions@,
                old(self).registers.data@,
                old(self).registers.overflowed,
                input@,
            ).0,
            final(self).registers.overflowed == run_instrs(
                old(self).instructions@,
                old(self).registers.data@,
                old(self).registers.overflowed,
                input@,
            ).1,
    {
        let ghost full = run_instrs(
            self.instructions@,
            self.registers.data@,
            self.registers.overflowed,
            input@,
        );
        let n = self.instructions.len();
        assert(self.instructions@.subrange(0, n as int) =~= self.instructions@);
        let mut i: usize = 0;
        while i < n
            invariant
                i <= n,
                n == self.instructions@.len(),
                self.wf(),
                input@.len() == self.n_inputs,
                self.id == old(self).id,
                self.instructions@ == old(self).instructions@,
                self.fitness == old(self).fitness,
                self.n_inputs == old(self).n_inputs,
                self.registers.n_actions == old(self).registers.n_actions,
                self.registers.data@.len() == old(self).registers.data@.len(),
                run_instrs(
                    self.instructions@.subrange(i as int, n as int),
                    self.registers.data@,
                    self.registers.overflowed,
                    input@,
                ) == full,
            decreases n - i,
        {
            let ghost pre_data = self.registers.data@;
            let ghost pre_flag = self.registers.overflowed;
            let ins = self.instructions[i];
            ins.apply(&mut self.registers, input);
            proof {
                let rest = self.instructions@.subrange(i as int, n as int);
                assert(rest[0] == ins);
                assert(rest.drop_first() =~= self.instructions@.subrange(i + 1, n as int));
            }
            i += 1;
        }
        assert(self.instructions@.subrange(n as int, n as int) =~= Seq::<Instruction>::empty());
    }

    /// A freshly sampled program: between one and `max_instructions`
    /// instructions, each uniformly random, zeroed registers, fitness not
    /// yet evaluated, and a fresh identity.
    pub fn generate(params: &ProgramGeneratorParameters, rng: &mut rand::rngs::StdRng) -> (r:
        Self)
        requires
            params.wf(),
        ensures
            r.wf(),
            r.shaped_by(params),
            1 <= r.instructions@.len() <= params.max_instructions,
            r.fitness is NotEvaluated,
            r.registers.data@ == reset_post(
                params.instruction_generator_parameters.n_registers_spec() as nat,
            ),
            !r.registers.overflowed,
    {
        let igp = &params.instruction_generator_parameters;
        let n = 1 + rand_below(rng, params.max_instructions);
        let mut instructions: Vec<Instruction> = Vec::new();
        let mut i: usize = 0;
        while i < n
            invariant
                i <= n,
                1 <= n <= params.max_instructions,
                params.wf(),
                igp == &params.instruction_generator_parameters,
                instructions@.len() == i,
                forall|k: int|
                    0 <= k < i ==> (#[trigger] instructions@[k]).wf(
                        igp.n_registers_spec(),
                        igp.n_inputs as int,
                    ),
            decreases n - i,
        {
            instructions.push(Instruction::generate(igp, rng));
            i += 1;
        }
        let registers = Registers::new(igp.n_actions, igp.n_registers());
        Program {
            id: fresh_id(),
            instructions,
            registers,
            fitness: FitnessScore::NotEvaluated,
            n_inputs: igp.n_inputs,
            marker: PhantomData,
        }
    }

    /// A mutated copy: with equal probability among the admissible edits,
    /// replace a random instruction, insert a fresh one (only below the
    /// instruction cap) or delete one (only above length one).  The parent is
    /// untouched; the child has zeroed registers, an unevaluated fitness and
    /// a fresh identity, and a parent within the cap stays within it.
    pub fn mutate(&self, params: &ProgramGeneratorParameters, rng: &mut rand::rngs::StdRng) -> (r:
        Self)
        requires
            self.wf(),
            params.wf(),
            self.shaped_by(params),
        ensures
            r.wf(),
            r.shaped_by(params),
            r.fitness is NotEvaluated,
            r.registers.data@ == reset_post(
                params.instruction_generator_parameters.n_registers_spec() as nat,
            ),
            !r.registers.overflowed,
            1 <= r.instructions@.len(),
            r.instructions@.len() <= self.instructions@.len() + 1,
            self.instructions@.len() <= params.max_instructions ==> r.instructions@.len()
                <= params.max_instructions,
            exists|idx: int, ins: Instruction|
                {
                    &&& #[trigger] mutated_from(
                        r.instructions@,
                        self.instructions@,
                        idx,
                        ins,
                        params.max_instructions as int,
                    )
                    &&& ins.wf(
                        params.instruction_generator_parameters.n_registers_spec(),
                        params.instruction_generator_parameters.n_inputs as int,
                    )
                },
    {
        let igp = &params.instruction_generator_parameters;
        let len = self.instructions.len();
        let can_insert = len < params.max_instructions;
        let can_delete = len > 1;
        let n_choices: usize = 1 + (if can_insert { 1usize } else { 0usize }) + (if can_delete {
            1usize
        } else {
            0usize
        });
        let choice = rand_below(rng, n_choices);
        let ghost cap = params.max_instructions as int;
        let ghost mut witness_idx: int = 0;
        let ghost mut witness_ins: Instruction = self.instructions@[0];
        let mut instructions = copy_instructions(&self.instructions);
        if choice == 0 {
            let idx = rand_below(rng, len);
            let ins = Instruction::generate(igp, rng);
            instructions[idx] = ins;
            proof {
                witness_idx = idx as int;
                witness_ins = ins;
            }
        } else if choice == 1 && can_insert {
            let pos = rand_below(rng, len + 1);
            let ins = Instruction::generate(igp, rng);
            instructions.insert(pos, ins);
            proof {
                witness_idx = pos as int;
                witness_ins = ins;
            }
        } else {
            let idx = rand_below(rng, len);
            instructions.remove(idx);
            proof {
                witness_idx = idx as int;
                witness_ins = self.instructions@[idx as int];
            }
        }
        let registers = Registers::new(igp.n_actions, igp.n_registers());
        let child = Program {
            id: fresh_id(),
            instructions,
            registers,
            fitness: FitnessScore::NotEvaluated,
            n_inputs: igp.n_inputs,
            marker: PhantomData,
        };
        proof {
            assert(mutated_from(
                child.instructions@,
                self.instructions@,
                witness_idx,
                witness_ins,
                cap,
            ));
            assert(witness_ins.wf(
                params.instruction_generator_parameters.n_registers_spec(),
                params.instruction_generator_parameters.n_inputs as int,
            ));
        }
        child
    }

    /// Cross one random chunk of each parent (see
    /// [`crate::instructions::two_point_crossover`]).  Each child keeps at
    /// least one instruction, stays within the parents' combined length, and
    /// starts unevaluated with zeroed registers and a fresh identity.
    pub fn two_point_crossover(&self, mate: &Self, rng: &mut rand::rngs::StdRng) -> (r: (
        Self,
        Self,
    ))
        requires
            self.wf(),
            mate.wf(),
            self.same_shape(mate),
        ensures
            r.0.wf(),
            r.1.wf(),
            r.0.same_shape(self),
            r.1.same_shape(self),
            r.0.fitness is NotEvaluated,
            r.1.fitness is NotEvaluated,
            r.0.registers.data@ == reset_post(self.registers.data@.len()),
            r.1.registers.data@ == reset_post(self.registers.data@.len()),
            !r.0.registers.overflowed,
            !r.1.registers.overflowed,
            1 <= r.0.instructions@.len() <= self.instructions@.len() + mate.instructions@.len(),
            1 <= r.1.instructions@.len() <= self.instructions@.len() + mate.instructions@.len(),
            exists|i: int, j: int, k: int, l: int|
                {
                    &&& #[trigger] valid_cuts(self.instructions@, i, j)
                    &&& #[trigger] valid_cuts(mate.instructions@, k, l)
                    &&& r.0.instructions@ == crossed(self.instructions@, mate.instructions@, i, j, k, l)
                    &&& r.1.instructions@ == crossed(mate.instructions@, self.instructions@, k, l, i, j)
                },
    {
        let (child_a, child_b) = two_point_crossover(&self.instructions, &mate.instructions, rng);
        proof {
            let (i, j, k, l) = choose|i: int, j: int, k: int, l: int|
                {
                    &&& #[trigger] valid_cuts(self.instructions@, i, j)
                    &&& #[trigger] valid_cuts(mate.instructions@, k, l)
                    &&& child_a@ == crossed(self.instructions@, mate.instructions@, i, j, k, l)
                    &&& child_b@ == crossed(mate.instructions@, self.instructions@, k, l, i, j)
                };
            lemma_crossed_wf(
                self.instructions@,
                mate.instructions@,
                i,
                j,
                k,
                l,
                self.registers.data@.len() as int,
                self.n_inputs as int,
            );
            lemma_crossed_wf(
                mate.instructions@,
                self.instructions@,
                k,
                l,
                i,
                j,
                self.registers.data@.len() as int,
                self.n_inputs as int,
            );
        }
        let ra = Registers::new(self.registers.n_actions, self.registers.data.len());
        let rb = Registers::new(self.registers.n_actions, self.registers.data.len());
        (
            Program {
                id: fresh_id(),
                instructions: child_a,
                registers: ra,
                fitness: FitnessScore::NotEvaluated,
                n_inputs: self.n_inputs,
                marker: PhantomData,
            },
            Program {
                id: fresh_id(),
                instructions: child_b,
                registers: rb,
                fitness: FitnessScore::NotEvaluated,
                n_inputs: self.n_inputs,
                marker: PhantomData,
            },
        )
    }

    /// A fresh template of the same program: same instructions, zeroed
    /// registers, unevaluated fitness and a fresh identity.
    pub fn duplicate_new(&self) -> (r: Self)
        requires
            self.wf(),
        ensures
            r.wf(),
            r.same_shape(self),
            r.instructions@ == self.instructions@,
            r.registers.data@ == reset_post(self.registers.data@.len()),
            r.fitness is NotEvaluated,
            !r.registers.overflowed,
    {
        let registers = Registers::new(self.registers.n_actions, self.registers.data.len());
        Program {
            id: fresh_id(),
            instructions: copy_instructions(&self.instructions),
            registers,
            fitness: FitnessScore::NotEvaluated,
            n_inputs: self.n_inputs,
            marker: PhantomData,
        }
    }

    pub fn get_fitness(&self) -> (r: FitnessScore)
        ensures
            r == self.fitness,
    {
        self.fitness
    }
}

/// Every instruction of a crossover child was an instruction of one of the
/// two parents, so the child is in bounds for the same machine shape.
proof fn lemma_crossed_wf(
    a: Seq<Instruction>,
    b: Seq<Instruction>,
    a_start: int,
    a_end: int,
    b_start: int,
    b_end: int,
    n_registers: int,
    n_inputs: int,
)
    requires
        valid_cuts(a, a_start, a_end),
        valid_cuts(b, b_start, b_end),
        forall|i: int| 0 <= i < a.len() ==> (#[trigger] a[i]).wf(n_registers, n_inputs),
        forall|i: int| 0 <= i < b.len() ==> (#[trigger] b[i]).wf(n_registers, n_inputs),
    ensures
        forall|i: int|
            0 <= i < crossed(a, b, a_start, a_end, b_start, b_end).len() ==> (
            #[trigger] crossed(a, b, a_start, a_end, b_start, b_end)[i]).wf(
                n_registers,
                n_inputs,
            ),
{
    let c = crossed(a, b, a_start, a_end, b_start, b_end);
    assert forall|i: int| 0 <= i < c.len() implies (#[trigger] c[i]).wf(n_registers, n_inputs) by {
        if i < a_start {
            assert(c[i] == a[i]);
        } else if i < a_start + (b_end - b_start) {
            assert(c[i] == b[b_start + (i - a_start)]);
        } else {
            assert(c[i] == a[a_end + (i - a_start - (b_end - b_start))]);
        }
    }
}

} // verus!
