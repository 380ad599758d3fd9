use lgp::instruction::{Instruction, InstructionGeneratorParameters, Mode, Op};
use lgp::program::{Program, ProgramGeneratorParameters};
use lgp::registers::Registers;
use lgp::rng::{fresh_id, rand_below, rng_from_seed};
use lgp::classification::ClassificationParameters;
use lgp::test_utils::TestInput;

type CProgram = Program<ClassificationParameters<TestInput>>;

fn params(max_instructions: usize) -> ProgramGeneratorParameters {
    ProgramGeneratorParameters {
        max_instructions,
        instruction_generator_parameters: InstructionGeneratorParameters {
            n_extras: 1,
            n_inputs: 4,
            n_actions: 2,
        },
    }
}

#[test]
fn argmax_returns_single_winner() {
    let mut registers = Registers::new(3, 5);
    registers.data[0] = 4;
    registers.data[1] = 9;
    registers.data[2] = 1;
    assert_eq!(registers.argmax(), 1);
}

#[test]
fn argmax_tie_is_a_sentinel() {
    let mut registers = Registers::new(3, 5);
    registers.data[0] = 9;
    registers.data[1] = 9;
    assert_eq!(registers.argmax(), -1);
    let zeroed = Registers::new(2, 4);
    assert_eq!(zeroed.argmax(), -1);
}

#[test]
fn all_argmax_lists_every_tied_winner() {
    let mut registers = Registers::new(2, 4);
    registers.data[0] = 5;
    registers.data[2] = 5;
    registers.data[3] = -1;
    let winners = registers.all_argmax().unwrap();
    assert_eq!(winners, vec![0, 2]);
}

#[test]
fn overflow_poisons_the_decision() {
    let mut registers = Registers::new(2, 4);
    registers.data[0] = i64::MAX;
    let doubling = Instruction {
        op_code: Op::Mul,
        mode: Mode::External,
        source_index: 0,
        target_index: 0,
    };
    let input = vec![2i64];
    doubling.apply(&mut registers, &input);
    assert!(registers.overflowed);
    assert!(registers.all_argmax().is_none());
    assert_eq!(registers.argmax(), -1);
    registers.reset();
    assert!(!registers.overflowed);
}

#[test]
fn division_by_zero_halves_and_truncates_toward_zero() {
    let divide = Instruction {
        op_code: Op::Div,
        mode: Mode::External,
        source_index: 0,
        target_index: 0,
    };
    let mut registers = Registers::new(1, 2);
    registers.data[0] = 7;
    divide.apply(&mut registers, &vec![0i64]);
    assert_eq!(registers.data[0], 3);
    assert!(!registers.overflowed);

    let mut negatives = Registers::new(1, 2);
    negatives.data[0] = -7;
    divide.apply(&mut negatives, &vec![2i64]);
    assert_eq!(negatives.data[0], -3);
    assert!(!negatives.overflowed);
}

#[test]
fn generated_programs_respect_the_cap() {
    let mut rng = rng_from_seed(11);
    let p = params(16);
    for _ in 0..50 {
        let program: CProgram = Program::generate(&p, &mut rng);
        assert!(1 <= program.instructions.len());
        assert!(program.instructions.len() <= 16);
        assert_eq!(program.registers.data.len(), 7);
        assert!(program.get_fitness().is_not_evaluated());
    }
}

#[test]
fn mutated_programs_stay_within_the_cap() {
    let mut rng = rng_from_seed(12);
    let p = params(8);
    let mut program: CProgram = Program::generate(&p, &mut rng);
    for _ in 0..200 {
        let child = program.mutate(&p, &mut rng);
        assert!(1 <= child.instructions.len());
        assert!(child.instructions.len() <= 8);
        let delta = child.instructions.len() as i64 - program.instructions.len() as i64;
        assert!(-1 <= delta && delta <= 1);
        assert!(child.get_fitness().is_not_evaluated());
        program = child;
    }
}

#[test]
fn duplicate_new_resets_state_but_keeps_instructions() {
    let mut rng = rng_from_seed(13);
    let p = params(16);
    let mut program: CProgram = Program::generate(&p, &mut rng);
    program.registers.data[0] = 55;
    program.fitness = lgp::fitness_engine::FitnessScore::Valid(10);
    let fresh = program.duplicate_new();
    assert_eq!(fresh.instructions, program.instructions);
    assert!(fresh.registers.data.iter().all(|&v| v == 0));
    assert!(fresh.get_fitness().is_not_evaluated());
    assert_ne!(fresh.id, program.id);
}

#[test]
fn sampled_indices_stay_below_the_bound() {
    let mut rng = rng_from_seed(14);
    for n in 1..60usize {
        for _ in 0..20 {
            assert!(rand_below(&mut rng, n) < n);
        }
    }
}

#[test]
fn one_seed_reproduces_one_sample_stream() {
    let mut a = rng_from_seed(99);
    let mut b = rng_from_seed(99);
    for _ in 0..100 {
        assert_eq!(rand_below(&mut a, 1000), rand_below(&mut b, 1000));
    }
}

#[test]
fn fresh_identities_differ() {
    assert_ne!(fresh_id(), fresh_id());
}
