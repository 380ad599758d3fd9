use lgp::instruction::{Instruction, InstructionGeneratorParameters, Mode, Op};
use lgp::instructions::{crossover_at, two_point_crossover};
use lgp::program::{Program, ProgramGeneratorParameters};
use lgp::rng::rng_from_seed;
use lgp::classification::ClassificationParameters;
use lgp::test_utils::TestInput;

type CProgram = Program<ClassificationParameters<TestInput>>;

fn marked(tag: usize) -> Instruction {
    Instruction {
        op_code: Op::Add,
        mode: Mode::Internal,
        source_index: tag,
        target_index: 0,
    }
}

#[test]
fn given_two_programs_when_two_point_crossover_multiple_times_then_instruction_set_never_grows() {
    let max_instructions = 100;
    let parameters = ProgramGeneratorParameters {
        max_instructions,
        instruction_generator_parameters: InstructionGeneratorParameters {
            n_extras: 1,
            n_inputs: 4,
            n_actions: 2,
        },
    };

    let mut rng = rng_from_seed(7);
    let program_a: CProgram = Program::generate(&parameters, &mut rng);
    let program_b: CProgram = Program::generate(&parameters, &mut rng);

    let mut parents = (program_a, program_b);

    for _ in 0..100 {
        let parent_a_instruction_len = parents.0.instructions.len();
        let parent_b_instruction_len = parents.1.instructions.len();

        let new_parents = parents.0.two_point_crossover(&parents.1, &mut rng);

        assert!(new_parents.0.instructions.len() > 0);
        assert!(new_parents.1.instructions.len() > 0);

        assert!(
            new_parents.0.instructions.len()
                <= parent_a_instruction_len + parent_b_instruction_len
        );
        assert!(
            new_parents.1.instructions.len()
                <= parent_a_instruction_len + parent_b_instruction_len
        );

        parents = new_parents;
    }
}

#[test]
fn crossover_length_bound_holds_for_fixed_parents() {
    let parent_a: Vec<Instruction> = (0..10).map(marked).collect();
    let parent_b: Vec<Instruction> = (0..15).map(marked).collect();
    let mut rng = rng_from_seed(21);
    for _ in 0..100 {
        let (child_a, child_b) = two_point_crossover(&parent_a, &parent_b, &mut rng);
        assert!(1 <= child_a.len() && child_a.len() <= 25);
        assert!(1 <= child_b.len() && child_b.len() <= 25);
    }
}

#[test]
fn crossover_is_symmetric_at_mirrored_cut_points() {
    let a: Vec<Instruction> = (0..5).map(marked).collect();
    let b: Vec<Instruction> = (10..14).map(marked).collect();
    let forward = crossover_at(&a, 1, 3, &b, 0, 2);
    let backward = crossover_at(&b, 0, 2, &a, 1, 3);
    assert_eq!(forward.0, backward.1);
    assert_eq!(forward.1, backward.0);
    assert_eq!(
        forward.0,
        vec![marked(0), marked(10), marked(11), marked(3), marked(4)]
    );
    assert_eq!(forward.1, vec![marked(1), marked(2), marked(12), marked(13)]);
}

#[test]
fn crossover_children_are_fresh_and_unevaluated() {
    let parameters = ProgramGeneratorParameters {
        max_instructions: 12,
        instruction_generator_parameters: InstructionGeneratorParameters {
            n_extras: 1,
            n_inputs: 4,
            n_actions: 2,
        },
    };
    let mut rng = rng_from_seed(22);
    let a: CProgram = Program::generate(&parameters, &mut rng);
    let b: CProgram = Program::generate(&parameters, &mut rng);
    let (child_a, child_b) = a.two_point_crossover(&b, &mut rng);
    assert!(child_a.get_fitness().is_not_evaluated());
    assert!(child_b.get_fitness().is_not_evaluated());
    assert_ne!(child_a.id, a.id);
    assert_ne!(child_a.id, b.id);
    assert_ne!(child_a.id, child_b.id);
    assert!(child_a.registers.data.iter().all(|&v| v == 0));
}
