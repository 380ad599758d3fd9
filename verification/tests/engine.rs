use lgp::algorithm::{build, GeneticAlgorithm, HyperParameters, ParameterError};
use lgp::classification::{ClassificationInput, ClassificationParameters, Lgp};
use lgp::inputs::ValidInput;
use lgp::fitness_engine::{fitness_le, Fitness, FitnessScore};
use lgp::instruction::InstructionGeneratorParameters;
use lgp::population::Population;
use lgp::program::{Program, ProgramGeneratorParameters};
use lgp::rng::rng_from_seed;
use lgp::test_utils::TestInput;

type CProgram = Program<ClassificationParameters<TestInput>>;
type CLgp = Lgp<TestInput>;

fn program_params(max_instructions: usize) -> ProgramGeneratorParameters {
    ProgramGeneratorParameters {
        max_instructions,
        instruction_generator_parameters: InstructionGeneratorParameters {
            n_extras: 1,
            n_inputs: 4,
            n_actions: 2,
        },
    }
}

/// Four inputs, two classes: the class is the exclusive-or of the first two
/// feature cells.  The third cell is a constant bias, without which the
/// all-zero row could never beat the tie sentinel.
fn xor_inputs() -> Vec<TestInput> {
    vec![
        TestInput([0, 0, 1, 0, 0]),
        TestInput([0, 1, 1, 0, 1]),
        TestInput([1, 0, 1, 0, 1]),
        TestInput([1, 1, 1, 0, 0]),
    ]
}

fn hyper(
    population_size: usize,
    gap: u32,
    mutation_percent: u32,
    crossover_percent: u32,
    n_generations: usize,
) -> HyperParameters<CProgram> {
    HyperParameters::new(
        population_size,
        gap,
        mutation_percent,
        crossover_percent,
        n_generations,
        ClassificationParameters::new(xor_inputs()),
        program_params(16),
    )
    .unwrap()
}

fn valid_program(params: &ProgramGeneratorParameters, score: i64) -> CProgram {
    let mut rng = rng_from_seed(score as u64);
    let mut program: CProgram = Program::generate(params, &mut rng);
    program.fitness = FitnessScore::Valid(score);
    program
}

#[test]
fn survive_respects_the_gap() {
    let params = hyper(10, 300, 300, 300, 5);
    let mut population: Population<CProgram> = Population::new(10);
    for score in 1..=10 {
        population.push(valid_program(&params.program_parameters, score));
    }
    CLgp::survive(&mut population, &params);
    assert_eq!(population.len(), 7);
    let survivors: Vec<i64> = (0..population.len())
        .map(|i| population.get(i).get_fitness().unwrap())
        .collect();
    assert_eq!(survivors, vec![4, 5, 6, 7, 8, 9, 10]);
}

#[test]
fn out_of_bounds_is_dropped_first() {
    let params = hyper(4, 250, 300, 300, 5);
    let mut population: Population<CProgram> = Population::new(4);
    for score in [5, 3, 1] {
        population.push(valid_program(&params.program_parameters, score));
    }
    let mut poisoned = valid_program(&params.program_parameters, 0);
    poisoned.fitness = FitnessScore::OutOfBounds;
    population.push(poisoned);
    CLgp::rank(&mut population, &params);
    CLgp::survive(&mut population, &params);
    assert_eq!(population.len(), 3);
    for i in 0..population.len() {
        assert!(!population.get(i).get_fitness().is_invalid());
    }
    assert_eq!(population.worst().unwrap().get_fitness(), FitnessScore::Valid(1));
}

#[test]
fn variation_refills_to_capacity() {
    let params = hyper(10, 300, 300, 300, 5);
    let mut population: Population<CProgram> = Population::new(10);
    for score in [2, 4, 6] {
        population.push(valid_program(&params.program_parameters, score));
    }
    let parent_ids: Vec<u128> = (0..3).map(|i| population.get(i).id).collect();
    let mut rng = rng_from_seed(5);
    CLgp::variation(&mut population, &params, &mut rng);
    assert_eq!(population.len(), 10);
    for i in 0..3 {
        assert_eq!(population.get(i).id, parent_ids[i]);
    }
    for i in 3..10 {
        assert!(population.get(i).get_fitness().is_not_evaluated());
    }
}

#[test]
fn snapshots_are_ranked_evaluated_and_full() {
    let params = hyper(10, 500, 500, 500, 3);
    let mut generations = build::<CLgp>(params, 77);
    let mut count = 0;
    while let Some(snapshot) = generations.next() {
        count += 1;
        assert_eq!(snapshot.len(), 10);
        for i in 0..snapshot.len() {
            assert!(!snapshot.get(i).get_fitness().is_not_evaluated());
        }
        let worst = snapshot.worst().unwrap().get_fitness();
        let median = snapshot.median().unwrap().get_fitness();
        let best = snapshot.best().unwrap().get_fitness();
        assert!(fitness_le(worst, median));
        assert!(fitness_le(median, best));
    }
    assert_eq!(count, 4);
}

#[test]
fn same_seed_reproduces_the_same_snapshots() {
    let run = |seed: u64| -> Vec<(FitnessScore, FitnessScore, FitnessScore)> {
        let params = hyper(12, 400, 400, 400, 5);
        let mut generations = build::<CLgp>(params, seed);
        let mut history = Vec::new();
        while let Some(snapshot) = generations.next() {
            history.push((
                snapshot.worst().unwrap().get_fitness(),
                snapshot.median().unwrap().get_fitness(),
                snapshot.best().unwrap().get_fitness(),
            ));
        }
        history
    };
    let first = run(42);
    let second = run(42);
    assert_eq!(first.len(), 6);
    assert_eq!(first, second);
}

#[test]
fn classification_converges_on_the_xor_task() {
    let mut solved = false;
    'seeds: for seed in 0..400 {
        let params = HyperParameters::new(
            50,
            500,
            500,
            500,
            50,
            ClassificationParameters::new(xor_inputs()),
            program_params(16),
        )
        .unwrap();
        let mut generations = build::<CLgp>(params, seed);
        while let Some(snapshot) = generations.next() {
            if snapshot.best().unwrap().get_fitness() == FitnessScore::Valid(1000) {
                solved = true;
                break 'seeds;
            }
        }
    }
    assert!(solved);
}

#[test]
fn an_exhausted_run_stays_ended() {
    let params = hyper(10, 300, 300, 300, 1);
    let mut generations = build::<CLgp>(params, 23);
    assert!(generations.next().is_some());
    assert!(generations.next().is_some());
    for _ in 0..5 {
        assert!(generations.next().is_none());
    }
}

#[test]
fn a_full_gap_collapses_the_population_and_ends_the_run() {
    // With a gap of one, selection removes every organism; the sequence
    // yields generation zero and then ends early.
    let params = hyper(10, 1000, 0, 0, 5);
    let mut generations = build::<CLgp>(params, 8);
    assert!(generations.next().is_some());
    assert!(generations.next().is_none());
}

#[test]
fn invalid_configurations_are_rejected() {
    let inputs = || ClassificationParameters::new(xor_inputs());
    let pp = || program_params(16);
    assert_eq!(
        HyperParameters::<CProgram>::new(1, 300, 300, 300, 5, inputs(), pp()).err(),
        Some(ParameterError::InvalidPopulationSize)
    );
    assert_eq!(
        HyperParameters::<CProgram>::new(10, 1001, 300, 300, 5, inputs(), pp()).err(),
        Some(ParameterError::InvalidGap)
    );
    assert_eq!(
        HyperParameters::<CProgram>::new(10, 300, 600, 600, 5, inputs(), pp()).err(),
        Some(ParameterError::InvalidVariationShares)
    );
    assert_eq!(
        HyperParameters::<CProgram>::new(10, 300, 300, 300, usize::MAX, inputs(), pp()).err(),
        Some(ParameterError::InvalidGenerationCount)
    );
    let mut bad_program_params = program_params(16);
    bad_program_params.max_instructions = 0;
    assert_eq!(
        HyperParameters::<CProgram>::new(10, 300, 300, 300, 5, inputs(), bad_program_params)
            .err(),
        Some(ParameterError::InvalidProgramParameters)
    );
    assert_eq!(
        HyperParameters::<CProgram>::new(
            10,
            300,
            300,
            300,
            5,
            ClassificationParameters::new(Vec::new()),
            pp()
        )
        .err(),
        Some(ParameterError::InvalidFitnessParameters)
    );
    assert!(HyperParameters::<CProgram>::new(10, 300, 300, 300, 5, inputs(), pp()).is_ok());
}

#[test]
fn labeled_rows_drive_the_classification_engine() {
    let rows: Vec<lgp::inputs::RowInput> = [(0i64, 0i64, 0usize), (0, 1, 1), (1, 0, 1), (1, 1, 0)]
        .iter()
        .map(|&(a, b, class)| lgp::inputs::RowInput::new(vec![a, b, 1], class))
        .collect();
    assert_eq!(rows[2].get_class(), 1);
    assert_eq!(rows[2].flat(), vec![1, 0, 1]);
    let params: HyperParameters<Program<ClassificationParameters<lgp::inputs::RowInput>>> =
        HyperParameters::new(
            8,
            400,
            400,
            400,
            2,
            ClassificationParameters::new(rows),
            ProgramGeneratorParameters {
                max_instructions: 8,
                instruction_generator_parameters: InstructionGeneratorParameters {
                    n_extras: 1,
                    n_inputs: 3,
                    n_actions: 2,
                },
            },
        )
        .unwrap();
    let mut generations = build::<Lgp<lgp::inputs::RowInput>>(params, 15);
    let mut count = 0;
    while let Some(snapshot) = generations.next() {
        count += 1;
        assert_eq!(snapshot.len(), 8);
        for i in 0..snapshot.len() {
            assert!(matches!(snapshot.get(i).get_fitness(), FitnessScore::Valid(_)));
        }
    }
    assert_eq!(count, 3);
}

#[test]
fn classification_accuracy_is_permille_of_hits() {
    let params = hyper(10, 300, 300, 300, 5);
    let mut rng = rng_from_seed(3);
    let mut program: CProgram = Program::generate(&params.program_parameters, &mut rng);
    let mut fitness_params = ClassificationParameters::new(xor_inputs());
    program.eval_fitness(&mut fitness_params, &mut rng);
    match program.get_fitness() {
        FitnessScore::Valid(v) => {
            assert!(0 <= v && v <= 1000);
            assert!(v % 250 == 0);
        }
        _ => panic!("classification always yields a valid score"),
    }
}
