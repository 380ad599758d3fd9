//! Classification fitness: a program is scored by the share of labeled
//! inputs whose class it predicts, in permille.  The prediction is the
//! argmax of the action window after execution; a tied argmax, an overflowed
//! register vector or an input of the wrong arity count as a miss, and the
//! registers are reset between inputs.

use core::marker::PhantomData;
use vstd::prelude::*;

use crate::algorithm::GeneticAlgorithm;
use crate::characteristics::Organism;
use crate::fitness_engine::{Fitness, FitnessScore};
use crate::inputs::{Inputs, ValidInput};
use crate::program::{Program, ProgramGeneratorParameters};
use crate::registers::Registers;

verus! {

/// A perfect classifier scores this many permille.
pub const ACCURACY_SCALE: i64 = 1000;

/// Upper bound on the number of labeled inputs, so the permille arithmetic
/// stays far from overflow.
pub const MAX_INPUTS: usize = 1000000;

/// The permille share of `hits` among `total`, rounded down.
pub open spec fn permille_of(hits: int, total: int) -> int {
    hits * (ACCURACY_SCALE as int) / total
}

/// One input counts as a hit exactly when: its arity matches the program,
/// running the program on it from freshly reset registers stays in bounds,
/// and the action window's single strict maximum sits at the ground-truth
/// class.  A tied maximum, an overflow or a class outside the window is a
/// miss.
pub open spec fn is_hit<T: ClassificationInput>(
    instrs: Seq<crate::instruction::Instruction>,
    n_registers: nat,
    n_actions: int,
    n_inputs: int,
    input: T,
) -> bool {
    let flat = input.flat_spec();
    let out = crate::program::run_instrs(
        instrs,
        crate::registers::reset_post(n_registers),
        false,
        flat,
    );
    let w = out.0.subrange(0, n_actions);
    let class = input.class_spec();
    &&& flat.len() == n_inputs
    &&& !out.1
    &&& 0 <= class < n_actions
    &&& crate::registers::is_max_index(w, class)
    &&& forall|k: int| 0 <= k < w.len() && k != class ==> w[k] < w[class]
}

/// How many of the inputs, visited in order, the program classifies
/// correctly.
pub open spec fn hit_count<T: ClassificationInput>(
    instrs: Seq<crate::instruction::Instruction>,
    n_registers: nat,
    n_actions: int,
    n_inputs: int,
    inputs: Seq<T>,
) -> int
    decreases inputs.len(),
{
    if inputs.len() == 0 {
        0
    } else {
        hit_count(instrs, n_registers, n_actions, n_inputs, inputs.drop_last()) + if is_hit(
            instrs,
            n_registers,
            n_actions,
            n_inputs,
            inputs.last(),
        ) {
            1int
        } else {
            0int
        }
    }
}

/// A labeled input: a flattenable value carrying its ground-truth class.
pub trait ClassificationInput: ValidInput {
    /// The ground-truth class, as the contracts see it.
    spec fn class_spec(&self) -> int;

    fn get_class(&self) -> (r: usize)
        ensures
            r as int == self.class_spec(),
    ;
}

pub struct ClassificationParameters<InputType: ClassificationInput> {
    pub inputs: Inputs<InputType>,
}

impl<T: ClassificationInput> ClassificationParameters<T> {
    pub fn new(inputs: Inputs<T>) -> (r: Self)
        ensures
            r.inputs@ == inputs@,
    {
        ClassificationParameters { inputs }
    }

    /// The predicted class of a register state: the index of the single
    /// maximal cell of the action window, or `-1` on a tie or an overflowed
    /// vector — a sentinel no class index can equal, so it always counts as
    /// a miss.
    pub fn argmax(registers: &Registers) -> (r: i64)
        requires
            registers.wf(),
        ensures
            registers.overflowed ==> r == -1,
            !registers.overflowed ==> {
                let w = registers.data@.subrange(0, registers.n_actions as int);
                if r == -1 {
                    exists|i: int, j: int|
                        #![trigger crate::registers::is_max_index(w, i), crate::registers::is_max_index(w, j)]
                        i != j && crate::registers::is_max_index(w, i)
                            && crate::registers::is_max_index(w, j)
                } else {
                    &&& 0 <= r < registers.n_actions
                    &&& crate::registers::is_max_index(w, r as int)
                    &&& forall|k: int| 0 <= k < w.len() && k != r ==> w[k] < w[r as int]
                }
            },
    {
        registers.argmax()
    }
}

impl<T: ClassificationInput> Fitness for Program<ClassificationParameters<T>> {
    type FitnessParameters = ClassificationParameters<T>;

    open spec fn well_formed(&self) -> bool {
        self.wf()
    }

    open spec fn shape(&self) -> Seq<int> {
        seq![
            self.registers.data@.len() as int,
            self.registers.n_actions as int,
            self.n_inputs as int,
        ]
    }

    open spec fn fitness_spec(&self) -> FitnessScore {
        self.fitness
    }

    open spec fn fitness_params_wf(params: &Self::FitnessParameters) -> bool {
        1 <= params.inputs@.len() <= MAX_INPUTS
    }

    fn check_fitness_params(params: &Self::FitnessParameters) -> (r: bool) {
        let n = params.inputs.len();
        1 <= n && n <= MAX_INPUTS
    }

    /// Score by argmax accuracy over the labeled inputs, in permille of the
    /// input count, rounded down: the recorded fitness is exactly
    /// `Valid(permille_of(hit_count(..), len))` over the program's own
    /// instructions and the given inputs, and the registers are left
    /// freshly reset.
    fn eval_fitness(
        &mut self,
        params: &mut Self::FitnessParameters,
        rng: &mut rand::rngs::StdRng,
    )
        ensures
            final(self).fitness is Valid,
            0 <= final(self).fitness->Valid_0 <= 1000,
            final(self).fitness->Valid_0 == permille_of(
                hit_count(
                    old(self).instructions@,
                    old(self).registers.data@.len(),
                    old(self).registers.n_actions as int,
                    old(self).n_inputs as int,
                    old(params).inputs@,
                ),
                old(params).inputs@.len() as int,
            ),
            final(self).instructions@ == old(self).instructions@,
            final(self).id == old(self).id,
            final(self).registers.data@ == crate::registers::reset_post(
                old(self).registers.data@.len(),
            ),
            !final(self).registers.overflowed,
            final(params).inputs@ == old(params).inputs@,
    {
        let ghost g_instrs = old(self).instructions@;
        let ghost g_regs = old(self).registers.data@.len();
        let ghost g_actions = old(self).registers.n_actions as int;
        let ghost g_inputs = old(self).n_inputs as int;
        let ghost g_set = old(params).inputs@;
        let total = params.inputs.len();
        let mut n_correct: usize = 0;
        let mut i: usize = 0;
        while i < total
            invariant
                i <= total,
                n_correct <= i,
                total == params.inputs@.len(),
                params.inputs@ == g_set,
                1 <= total <= MAX_INPUTS,
                self.wf(),
                self.registers.data@.len() == old(self).registers.data@.len(),
                self.registers.n_actions == old(self).registers.n_actions,
                self.n_inputs == old(self).n_inputs,
                self.instructions@ == old(self).instructions@,
                self.id == old(self).id,
                g_instrs == old(self).instructions@,
                g_regs == old(self).registers.data@.len(),
                g_actions == old(self).registers.n_actions as int,
                g_inputs == old(self).n_inputs as int,
                g_set == old(params).inputs@,
                n_correct as int == hit_count(
                    g_instrs,
                    g_regs,
                    g_actions,
                    g_inputs,
                    g_set.take(i as int),
                ),
            decreases total - i,
        {
            let ghost input = g_set[i as int];
            let flat = params.inputs[i].flat();
            self.registers.reset();
            let mut hit = false;
            if flat.len() == self.n_inputs {
                self.exec(&flat);
                let predicted = ClassificationParameters::<T>::argmax(&self.registers);
                let class = params.inputs[i].get_class();
                if predicted >= 0 && (predicted as usize) == class {
                    hit = true;
                }
                proof {
                    let out = crate::program::run_instrs(
                        g_instrs,
                        crate::registers::reset_post(g_regs),
                        false,
                        input.flat_spec(),
                    );
                    assert(flat@ == input.flat_spec());
                    assert(self.registers.data@ == out.0);
                    assert(self.registers.overflowed == out.1);
                    let w = out.0.subrange(0, g_actions);
                    assert(w == self.registers.data@.subrange(
                        0,
                        self.registers.n_actions as int,
                    ));
                    let cs = input.class_spec();
                    if self.registers.overflowed {
                        assert(!hit && !is_hit(g_instrs, g_regs, g_actions, g_inputs, input));
                    } else if predicted == -1 {
                        assert(!hit);
                        assert(!is_hit(g_instrs, g_regs, g_actions, g_inputs, input)) by {
                            if is_hit(g_instrs, g_regs, g_actions, g_inputs, input) {
                                let (x, y) = choose|x: int, y: int|
                                    #![trigger crate::registers::is_max_index(w, x), crate::registers::is_max_index(w, y)]
                                    x != y && crate::registers::is_max_index(w, x)
                                        && crate::registers::is_max_index(w, y);
                                if x != cs {
                                    assert(w[x] < w[cs]);
                                    assert(w[cs] <= w[x]);
                                } else {
                                    assert(w[y] < w[cs]);
                                    assert(w[cs] <= w[y]);
                                }
                            }
                        }
                    } else {
                        if hit {
                            assert(cs == predicted as int);
                            assert(is_hit(g_instrs, g_regs, g_actions, g_inputs, input));
                        } else {
                            assert(!is_hit(g_instrs, g_regs, g_actions, g_inputs, input)) by {
                                if is_hit(g_instrs, g_regs, g_actions, g_inputs, input) {
                                    assert(cs != predicted as int);
                                    assert(w[predicted as int] < w[cs]);
                                    assert(w[cs] <= w[predicted as int]);
                                }
                            }
                        }
                    }
                    assert(hit == is_hit(g_instrs, g_regs, g_actions, g_inputs, input));
                }
            } else {
                proof {
                    assert(!is_hit(g_instrs, g_regs, g_actions, g_inputs, input));
                }
            }
            if hit {
                n_correct += 1;
            }
            proof {
                assert(g_set.take(i + 1).drop_last() =~= g_set.take(i as int));
                assert(g_set.take(i + 1).last() == input);
            }
            i += 1;
        }
        self.registers.reset();
        proof {
            assert(g_set.take(total as int) =~= g_set);
        }
        let score = ((n_correct as i64) * ACCURACY_SCALE) / (total as i64);
        proof {
            vstd::arithmetic::div_mod::lemma_div_is_ordered(
                0,
                (n_correct as int) * 1000,
                total as int,
            );
            vstd::arithmetic::div_mod::lemma_div_is_ordered(
                (n_correct as int) * 1000,
                (total as int) * 1000,
                total as int,
            );
            vstd::arithmetic::div_mod::lemma_div_multiples_vanish(1000, total as int);
            assert((n_correct as int) * 1000 >= 0 && (n_correct as int) * 1000 <= (total as int)
                * 1000 <= 1000000000000) by (nonlinear_arith)
                requires
                    0 <= n_correct as int <= total as int,
                    total as int <= 1000000,
            ;
        }
        proof {
            assert(score as int == permille_of(n_correct as int, total as int));
        }
        self.fitness = FitnessScore::Valid(score);
    }

    fn get_fitness(&self) -> (r: FitnessScore) {
        self.fitness
    }
}

impl<T: ClassificationInput> Organism for Program<ClassificationParameters<T>> {
    type GeneratorParameters = ProgramGeneratorParameters;

    open spec fn gen_params_wf(p: &ProgramGeneratorParameters) -> bool {
        p.wf()
    }

    fn check_gen_params(p: &ProgramGeneratorParameters) -> (r: bool) {
        check_program_params(p)
    }

    open spec fn compatible(&self, p: &ProgramGeneratorParameters) -> bool {
        self.shaped_by(p)
    }

    open spec fn breeds_with(&self, other: &Self) -> bool {
        self.same_shape(other)
    }

    open spec fn child_of_crossover(&self, a: &Self, b: &Self) -> bool {
        self.child_of_crossover_spec(a, b)
    }

    open spec fn child_of_mutation(&self, parent: &Self) -> bool {
        self.child_of_mutation_spec(parent)
    }

    open spec fn duplicate_of(&self, parent: &Self) -> bool {
        self.duplicate_of_spec(parent)
    }

    proof fn lemma_compatible_from_shape(a: &Self, b: &Self, p: &ProgramGeneratorParameters) {
        assert(b.registers.data@.len() as int == b.shape()[0]);
        assert(a.registers.data@.len() as int == a.shape()[0]);
        assert(b.registers.n_actions as int == b.shape()[1]);
        assert(b.n_inputs as int == b.shape()[2]);
    }

    proof fn lemma_compatible_breeds(a: &Self, b: &Self, p: &ProgramGeneratorParameters) {
    }

    fn generate(p: &ProgramGeneratorParameters, rng: &mut rand::rngs::StdRng) -> (r: Self) {
        Program::generate(p, rng)
    }

    fn mutate(&self, p: &ProgramGeneratorParameters, rng: &mut rand::rngs::StdRng) -> (r: Self) {
        let child = Program::mutate(self, p, rng);
        proof {
            let (idx, ins) = choose|idx: int, ins: crate::instruction::Instruction|
                {
                    &&& #[trigger] crate::program::mutated_from(
                        child.instructions@,
                        self.instructions@,
                        idx,
                        ins,
                        p.max_instructions as int,
                    )
                    &&& ins.wf(
                        p.instruction_generator_parameters.n_registers_spec(),
                        p.instruction_generator_parameters.n_inputs as int,
                    )
                };
            assert(crate::program::edited_from(
                child.instructions@,
                self.instructions@,
                idx,
                ins,
            ));
        }
        child
    }

    fn two_point_crossover(&self, mate: &Self, rng: &mut rand::rngs::StdRng) -> (r: (Self, Self)) {
        let children = Program::two_point_crossover(self, mate, rng);
        proof {
            let (i, j, k, l) = choose|i: int, j: int, k: int, l: int|
                {
                    &&& #[trigger] crate::instructions::valid_cuts(self.instructions@, i, j)
                    &&& #[trigger] crate::instructions::valid_cuts(mate.instructions@, k, l)
                    &&& children.0.instructions@ == crate::instructions::crossed(
                        self.instructions@,
                        mate.instructions@,
                        i,
                        j,
                        k,
                        l,
                    )
                    &&& children.1.instructions@ == crate::instructions::crossed(
                        mate.instructions@,
                        self.instructions@,
                        k,
                        l,
                        i,
                        j,
                    )
                };
            assert(crate::instructions::valid_cuts(self.instructions@, i, j));
            assert(crate::instructions::valid_cuts(mate.instructions@, k, l));
        }
        children
    }

    fn duplicate_new(&self) -> (r: Self) {
        Program::duplicate_new(self)
    }

    fn replicate(&self) -> (r: Self) {
        Program::replicate(self)
    }
}

/// Decide `ProgramGeneratorParameters::wf` at run time.
pub fn check_program_params(p: &ProgramGeneratorParameters) -> (r: bool)
    ensures
        r == p.wf(),
{
    let igp = &p.instruction_generator_parameters;
    1 <= p.max_instructions && p.max_instructions <= 1000000 && 1 <= igp.n_actions && 1
        <= igp.n_inputs && igp.n_actions <= crate::registers::MAX_REGISTERS && igp.n_inputs
        <= crate::registers::MAX_REGISTERS - igp.n_actions && igp.n_extras
        <= crate::registers::MAX_REGISTERS - igp.n_actions - igp.n_inputs
}

/// The genetic algorithm over plain classification programs; every hook is
/// the default no-op.
pub struct Lgp<T: ClassificationInput> {
    pub marker: PhantomData<T>,
}

impl<T: ClassificationInput> GeneticAlgorithm for Lgp<T> {
    type O = Program<ClassificationParameters<T>>;

}

} // verus!
