use std::marker::PhantomData;

use lgp::algorithm::{build, HyperParameters};
use lgp::fitness_engine::{Fitness, FitnessScore};
use lgp::instruction::{Instruction, InstructionGeneratorParameters, Mode, Op};
use lgp::program::{Program, ProgramGeneratorParameters};
use lgp::q_learning::{
    maybe_update, ActionRegisterPair, QConsts, QLgp, QProgram, QProgramGeneratorParameters,
    QTable,
};
use lgp::registers::Registers;
use lgp::reinforcement_learning::ReinforcementLearningParameters;
use lgp::rng::{fresh_id, rng_from_seed};
use lgp::test_utils::TestRlInput;

type RProgram = Program<ReinforcementLearningParameters<TestRlInput>>;

fn all_zero(q: &QTable) -> bool {
    for register in 0..q.n_registers {
        for action in 0..q.n_actions {
            if q.cell(register, action) != 0 {
                return false;
            }
        }
    }
    true
}

/// One instruction that folds the single input cell into register zero, so
/// the winning register is stable whenever the state is positive.
fn accumulator_program() -> RProgram {
    Program {
        id: fresh_id(),
        instructions: vec![Instruction {
            op_code: Op::Add,
            mode: Mode::External,
            source_index: 0,
            target_index: 0,
        }],
        registers: Registers::new(1, 2),
        fitness: FitnessScore::NotEvaluated,
        n_inputs: 1,
        marker: PhantomData,
    }
}

#[test]
fn new_tables_and_duplicates_are_zeroed() {
    let consts = QConsts::new(250, 125, 0);
    let mut q = QTable::new(2, 3, consts);
    assert!(all_zero(&q));
    q.update(
        ActionRegisterPair { action: 1, register: 0 },
        8,
        ActionRegisterPair { action: 0, register: 1 },
    );
    assert!(!all_zero(&q));
    let fresh = q.duplicate_new();
    assert_eq!(fresh.n_registers, 3);
    assert_eq!(fresh.n_actions, 2);
    assert!(all_zero(&fresh));
}

#[test]
fn update_applies_the_temporal_difference_rule_to_one_cell() {
    let consts = QConsts::new(250, 125, 0);
    let mut q = QTable::new(2, 2, consts);
    q.update(
        ActionRegisterPair { action: 1, register: 0 },
        8,
        ActionRegisterPair { action: 0, register: 1 },
    );
    // alpha * (reward + gamma * next_max - q) = 250/1000 * (8 + 0 - 0) = 2.
    assert_eq!(q.cell(0, 1), 2);
    assert_eq!(q.cell(0, 0), 0);
    assert_eq!(q.cell(1, 0), 0);
    assert_eq!(q.cell(1, 1), 0);
    // A second update sees next_max = 2 in row 0:
    // 250/1000 * (4 + 125/1000 * 2 - 0) = 250/1000 * 4 = 1.
    q.update(
        ActionRegisterPair { action: 0, register: 1 },
        4,
        ActionRegisterPair { action: 0, register: 0 },
    );
    assert_eq!(q.cell(1, 0), 1);
    assert_eq!(q.cell(0, 1), 2);
}

#[test]
fn update_is_gated_on_a_register_change() {
    let consts = QConsts::new(250, 125, 0);
    let mut q = QTable::new(2, 2, consts);
    maybe_update(
        &mut q,
        ActionRegisterPair { action: 0, register: 1 },
        999,
        ActionRegisterPair { action: 1, register: 1 },
    );
    assert!(all_zero(&q));
    maybe_update(
        &mut q,
        ActionRegisterPair { action: 0, register: 1 },
        999,
        ActionRegisterPair { action: 1, register: 0 },
    );
    assert!(!all_zero(&q));
}

#[test]
fn greedy_action_is_the_first_row_maximum() {
    let consts = QConsts::new(250, 125, 0);
    let mut q = QTable::new(3, 1, consts);
    q.update(
        ActionRegisterPair { action: 1, register: 0 },
        8,
        ActionRegisterPair { action: 2, register: 0 },
    );
    assert_eq!(q.action_argmax(0), 1);
    let zeroed = q.duplicate_new();
    assert_eq!(zeroed.action_argmax(0), 0);
}

#[test]
fn eval_yields_no_pair_for_an_overflowed_vector() {
    let consts = QConsts::default();
    let q = QTable::new(2, 3, consts);
    let mut rng = rng_from_seed(1);
    let mut registers = Registers::new(2, 3);
    registers.data[1] = 4;
    let pair = q.eval(&registers, &mut rng).unwrap();
    assert_eq!(pair.register, 1);
    assert!(pair.action < 2);
    registers.overflowed = true;
    assert!(q.eval(&registers, &mut rng).is_none());
}

#[test]
fn stationary_winning_register_leaves_the_table_untouched() {
    let program = accumulator_program();
    let q_table = QTable::new(1, 2, QConsts::new(250, 125, 0));
    let mut organism = QProgram { q_table, program };
    let mut params = ReinforcementLearningParameters::new(vec![7i64], 5, TestRlInput::new(2));
    let mut rng = rng_from_seed(9);
    organism.eval_fitness(&mut params, &mut rng);
    // Two steps, each rewarding 7: the return is 14, and with the winning
    // register stable no update ever fires.
    assert_eq!(organism.get_fitness(), FitnessScore::Valid(14));
    assert!(all_zero(&organism.q_table));
}

#[test]
fn fitness_is_the_median_of_trials() {
    let program = accumulator_program();
    let q_table = QTable::new(1, 2, QConsts::new(250, 125, 0));
    let mut organism = QProgram { q_table, program };
    let mut params = ReinforcementLearningParameters::new(
        vec![-200i64, -150, -100, -50, 0],
        5,
        TestRlInput::new(1),
    );
    let mut rng = rng_from_seed(10);
    organism.eval_fitness(&mut params, &mut rng);
    assert_eq!(organism.get_fitness(), FitnessScore::Valid(-100));
    // Every episode ends on its first step, so the adopted median table is
    // the untouched copy of the organism's zeroed table.
    assert!(all_zero(&organism.q_table));
}

#[test]
fn numeric_overflow_scores_out_of_bounds() {
    let program = accumulator_program();
    let q_table = QTable::new(1, 2, QConsts::new(250, 125, 0));
    let mut organism = QProgram { q_table, program };
    // Folding i64::MAX into register zero twice overflows, so the second
    // decision fails and poisons the fitness.
    let mut params =
        ReinforcementLearningParameters::new(vec![i64::MAX], 5, TestRlInput::new(3));
    let mut rng = rng_from_seed(17);
    organism.eval_fitness(&mut params, &mut rng);
    assert_eq!(organism.get_fitness(), FitnessScore::OutOfBounds);
}

#[test]
fn input_arity_mismatch_scores_out_of_bounds() {
    let mut program = accumulator_program();
    // The program expects two input cells; the environment offers one.
    program.n_inputs = 2;
    let q_table = QTable::new(1, 2, QConsts::new(250, 125, 0));
    let mut organism = QProgram { q_table, program };
    let mut params = ReinforcementLearningParameters::new(vec![7i64], 5, TestRlInput::new(2));
    let mut rng = rng_from_seed(18);
    organism.eval_fitness(&mut params, &mut rng);
    assert_eq!(organism.get_fitness(), FitnessScore::OutOfBounds);
}

#[test]
fn q_learning_generations_run_to_completion() {
    let program_parameters = ProgramGeneratorParameters {
        max_instructions: 8,
        instruction_generator_parameters: InstructionGeneratorParameters {
            n_extras: 0,
            n_inputs: 1,
            n_actions: 1,
        },
    };
    let params: HyperParameters<QProgram<TestRlInput>> = HyperParameters::new(
        6,
        500,
        400,
        400,
        2,
        ReinforcementLearningParameters::new(vec![-10i64, 0, 10], 3, TestRlInput::new(2)),
        QProgramGeneratorParameters::new(program_parameters, QConsts::default()),
    )
    .unwrap();
    let mut generations = build::<QLgp<TestRlInput>>(params, 31);
    let mut count = 0;
    while let Some(snapshot) = generations.next() {
        count += 1;
        assert_eq!(snapshot.len(), 6);
        for i in 0..snapshot.len() {
            assert!(!snapshot.get(i).get_fitness().is_not_evaluated());
        }
    }
    assert_eq!(count, 3);
}
