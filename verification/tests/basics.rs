use rust_exercises::array_mutation::{array_mut_mut, array_mut_ownership};
use rust_exercises::calculator::{calculator_str_list, known_operator};
use rust_exercises::converter::Converter;
use rust_exercises::fibonacci::fibonacci;
use rust_exercises::guessing_game::{draw_secret, judge_guess, GuessOutcome};

const OWNERSHIP_TEST_ARRAY: [u32; 5] = [1, 2, 3, 4, 5];

#[test]
fn test_fibonacci() {
    assert_eq!(fibonacci(0), 0);
    assert_eq!(fibonacci(1), 1);
    assert_eq!(fibonacci(2), 1);
    assert_eq!(fibonacci(3), 2);
    assert_eq!(fibonacci(4), 3);
    assert_eq!(fibonacci(5), 5);
    assert_eq!(fibonacci(6), 8);
    assert_eq!(fibonacci(7), 13);
    assert_eq!(fibonacci(8), 21);
    assert_eq!(fibonacci(9), 34);
    assert_eq!(fibonacci(10), 55);
}

#[test]
fn fibonacci_largest_in_range() {
    assert_eq!(fibonacci(47), 2971215073);
}

#[test]
fn test_calculator_str_list() {
    assert_eq!(calculator_str_list(&vec!["2", "*", "3"]), 6);
    assert_eq!(calculator_str_list(&vec!["2", "+", "3"]), 5);
    assert_eq!(calculator_str_list(&vec!["3", "-", "2"]), 1);
    assert_eq!(calculator_str_list(&vec!["6", "/", "3"]), 2);
}

#[test]
fn calculator_divides_toward_zero_and_ignores_unknown_operators() {
    assert_eq!(calculator_str_list(&vec!["-7", "/", "2"]), -3);
    assert_eq!(calculator_str_list(&vec!["+7", "%", "2"]), 0);
    assert!(known_operator("/"));
    assert!(!known_operator("%"));
}

#[test]
fn test_ownership_mutation() {
    assert_eq!(array_mut_ownership(OWNERSHIP_TEST_ARRAY, '+', 1), [2, 3, 4, 5, 6]);
    assert_eq!(array_mut_ownership(OWNERSHIP_TEST_ARRAY, '-', 1), [0, 1, 2, 3, 4]);
    assert_eq!(array_mut_ownership(OWNERSHIP_TEST_ARRAY, '*', 2), [2, 4, 6, 8, 10]);
    assert_eq!(array_mut_ownership(OWNERSHIP_TEST_ARRAY, '/', 2), [0, 1, 1, 2, 2]);
}

#[test]
fn test_mut_ref_mutation() {
    let mut array = OWNERSHIP_TEST_ARRAY.clone();
    array_mut_mut(&mut array, '+', 1);
    assert_eq!(array, [2, 3, 4, 5, 6]);

    let mut array = OWNERSHIP_TEST_ARRAY.clone();
    array_mut_mut(&mut array, '-', 1);
    assert_eq!(array, [0, 1, 2, 3, 4]);

    let mut array = OWNERSHIP_TEST_ARRAY.clone();
    array_mut_mut(&mut array, '*', 2);
    assert_eq!(array, [2, 4, 6, 8, 10]);

    let mut array = OWNERSHIP_TEST_ARRAY.clone();
    array_mut_mut(&mut array, '/', 2);
    assert_eq!(array, [0, 1, 1, 2, 2]);
}

#[test]
fn array_operations_with_unknown_operator_or_zero_divisor_change_nothing() {
    assert_eq!(array_mut_ownership(OWNERSHIP_TEST_ARRAY, '%', 3), OWNERSHIP_TEST_ARRAY);
    let mut array = OWNERSHIP_TEST_ARRAY.clone();
    array_mut_mut(&mut array, '/', 0);
    assert_eq!(array, OWNERSHIP_TEST_ARRAY);
    array_mut_mut(&mut array, '%', 0);
    assert_eq!(array, OWNERSHIP_TEST_ARRAY);
}

#[test]
fn guesses_are_judged_against_the_secret() {
    assert!(matches!(judge_guess(10, 50), GuessOutcome::TooLow));
    assert!(matches!(judge_guess(90, 50), GuessOutcome::TooHigh));
    assert!(matches!(judge_guess(50, 50), GuessOutcome::Correct));
}

#[test]
fn secrets_are_drawn_between_zero_and_one_hundred() {
    for _ in 0..200 {
        let s = draw_secret();
        assert!(s <= 100);
    }
}

#[test]
fn converter_reads_unsigned_numbers() {
    let _c = Converter::new();
    assert_eq!(Converter::integer("42".to_string()), 42);
    assert_eq!(Converter::integer("+7".to_string()), 7);
    assert_eq!(Converter::integer("4294967295".to_string()), 4294967295);
}
