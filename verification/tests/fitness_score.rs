use lgp::classification::ClassificationInput;
use lgp::fitness_engine::{fitness_le, FitnessScore};
use lgp::registers::Registers;
use lgp::test_utils::{TestInput, TestRepresent};

#[test]
fn valid_scores_compare_by_value() {
    assert!(fitness_le(FitnessScore::Valid(3), FitnessScore::Valid(5)));
    assert!(!fitness_le(FitnessScore::Valid(5), FitnessScore::Valid(3)));
    assert!(fitness_le(FitnessScore::Valid(4), FitnessScore::Valid(4)));
    assert_eq!(
        FitnessScore::Valid(3).partial_cmp(&FitnessScore::Valid(5)),
        Some(std::cmp::Ordering::Less)
    );
    assert_eq!(
        FitnessScore::Valid(5).partial_cmp(&FitnessScore::Valid(3)),
        Some(std::cmp::Ordering::Greater)
    );
    assert_eq!(
        FitnessScore::Valid(4).partial_cmp(&FitnessScore::Valid(4)),
        Some(std::cmp::Ordering::Equal)
    );
}

#[test]
fn valid_beats_out_of_bounds_and_not_evaluated() {
    assert!(!fitness_le(FitnessScore::Valid(-1000), FitnessScore::OutOfBounds));
    assert!(!fitness_le(FitnessScore::Valid(-1000), FitnessScore::NotEvaluated));
    assert!(fitness_le(FitnessScore::OutOfBounds, FitnessScore::Valid(i64::MIN)));
    assert!(fitness_le(FitnessScore::NotEvaluated, FitnessScore::Valid(i64::MIN)));
}

#[test]
fn not_evaluated_and_out_of_bounds_are_equivalent() {
    assert!(fitness_le(FitnessScore::NotEvaluated, FitnessScore::OutOfBounds));
    assert!(fitness_le(FitnessScore::OutOfBounds, FitnessScore::NotEvaluated));
    assert_eq!(
        FitnessScore::NotEvaluated.partial_cmp(&FitnessScore::OutOfBounds),
        Some(std::cmp::Ordering::Equal)
    );
}

#[test]
fn score_accessors_follow_the_tag() {
    let mut s = FitnessScore::Valid(9);
    assert!(!s.is_not_evaluated());
    assert!(!s.is_invalid());
    assert_eq!(s.unwrap(), 9);
    assert_eq!(s.unwrap_or(-1), 9);
    s.reset();
    assert!(s.is_not_evaluated());
    assert!(!s.is_invalid());
    assert_eq!(s.unwrap_or(-1), -1);
    let oob = FitnessScore::OutOfBounds;
    assert!(oob.is_invalid());
    assert!(!oob.is_not_evaluated());
    assert_eq!(oob.unwrap_or(7), 7);
}

#[test]
fn class_labels_match_their_indices() {
    assert_eq!(TestRepresent::One.as_class(), 0);
    assert_eq!(TestRepresent::Two.as_class(), 1);
    assert_eq!(TestRepresent::from_class(0), Some(TestRepresent::One));
    assert_eq!(TestRepresent::from_class(1), Some(TestRepresent::Two));
    assert_eq!(TestRepresent::from_class(2), None);
    let one = TestInput([4, 3, 2, 1, 0]);
    let two = TestInput([4, 3, 2, 1, 1]);
    assert_eq!(TestRepresent::from_class(one.get_class()), Some(TestRepresent::One));
    assert_eq!(TestRepresent::from_class(two.get_class()), Some(TestRepresent::Two));
}

#[test]
fn reset_is_idempotent() {
    let mut registers = Registers::new(2, 5);
    registers.data[0] = 17;
    registers.data[4] = -3;
    registers.overflowed = true;
    registers.reset();
    let once_data = registers.data.clone();
    let once_flag = registers.overflowed;
    registers.reset();
    assert_eq!(registers.data, once_data);
    assert_eq!(registers.overflowed, once_flag);
    assert!(registers.data.iter().all(|&v| v == 0));
    assert!(!registers.overflowed);
}
