use website_checker::numbers::{check_guess, is_even, sum_with_step};
use website_checker::words::{most_frequent_in, most_frequent_word};

#[test]
fn evenness() {
    assert!(is_even(0));
    assert!(is_even(12));
    assert!(!is_even(7));
    assert!(is_even(-4));
    assert!(!is_even(-3));
}

#[test]
fn guesses() {
    assert_eq!(check_guess(45, 45), 0);
    assert_eq!(check_guess(46, 45), 1);
    assert_eq!(check_guess(40, 45), -1);
}

#[test]
fn stepped_sums() {
    let mut total = 0;
    sum_with_step(&mut total, 0, 100, 1);
    assert_eq!(total, 5050);
    sum_with_step(&mut total, 0, 10, 2);
    assert_eq!(total, 30);
    sum_with_step(&mut total, 5, 15, 3);
    assert_eq!(total, 38);
    sum_with_step(&mut total, 10, 5, 1);
    assert_eq!(total, 0);
    sum_with_step(&mut total, -3, 3, 2);
    assert_eq!(total, 0);
    sum_with_step(&mut total, i32::MAX, i32::MAX, i32::MAX);
    assert_eq!(total, i32::MAX);
}

#[test]
fn most_frequent_word_of_sentence() {
    let text = "the quick brown fox jumps over the lazy dog the quick brown fox";
    assert_eq!(most_frequent_word(text), ("the".to_string(), 3));
}

#[test]
fn most_frequent_word_ties_and_empty() {
    assert_eq!(most_frequent_word(""), (String::new(), 0));
    assert_eq!(most_frequent_word("   \t\n "), (String::new(), 0));
    assert_eq!(most_frequent_word("b a a b"), ("b".to_string(), 2));
    assert_eq!(most_frequent_word("  one\ttwo\nthree two  "), ("two".to_string(), 2));
    let words = vec!["x".to_string(), "y".to_string(), "y".to_string()];
    assert_eq!(most_frequent_in(&words), ("y".to_string(), 2));
}
