use lotto::channel::Message;
use lotto::game::Guess;
use lotto::rules::{GuessError, UserInput};
use std::sync::mpsc;

fn guess_of(series: Vec<u8>, superzahl: u8) -> Guess {
    let (sender, _receiver) = mpsc::channel::<Message>();
    Guess::new(series, superzahl, sender)
}

#[test]
fn a_valid_guess_passes() {
    assert!(guess_of(vec![1, 45, 38, 5, 23, 19], 13).validate().is_ok());
}

#[test]
fn an_empty_series_is_reported() {
    let errors = guess_of(vec![], 5).validate().unwrap_err();
    assert_eq!(errors, vec![GuessError::EmptySeries]);
}

#[test]
fn an_overlong_series_is_reported() {
    let errors = guess_of(vec![1, 2, 3, 4, 5, 6, 7], 9).validate().unwrap_err();
    assert_eq!(errors, vec![GuessError::SeriesTooLong]);
}

#[test]
fn a_series_value_outside_the_range_is_reported() {
    let errors = guess_of(vec![0], 5).validate().unwrap_err();
    assert_eq!(errors, vec![GuessError::SeriesValueOutOfRange]);
    let errors = guess_of(vec![50], 5).validate().unwrap_err();
    assert_eq!(errors, vec![GuessError::SeriesValueOutOfRange]);
}

#[test]
fn a_superzahl_outside_the_range_is_reported() {
    let errors = guess_of(vec![1, 2], 0).validate().unwrap_err();
    assert_eq!(errors, vec![GuessError::SuperzahlOutOfRange]);
    let errors = guess_of(vec![1, 2], 50).validate().unwrap_err();
    assert_eq!(errors, vec![GuessError::SuperzahlOutOfRange]);
}

#[test]
fn a_superzahl_inside_the_series_is_reported() {
    let errors = guess_of(vec![1, 2, 3], 2).validate().unwrap_err();
    assert_eq!(errors, vec![GuessError::SuperzahlInSeries]);
}

#[test]
fn guess_validation_does_not_check_uniqueness() {
    // The guess-side checks leave uniqueness to the input collaborator.
    assert!(guess_of(vec![2, 2], 3).validate().is_ok());
}

#[test]
fn errors_arrive_in_check_order() {
    let errors = guess_of(vec![], 0).validate().unwrap_err();
    assert_eq!(errors, vec![GuessError::EmptySeries, GuessError::SuperzahlOutOfRange]);
}

#[test]
fn input_validation_reports_duplicates() {
    let errors = UserInput::validate(&vec![1, 2, 2], &4).unwrap_err();
    assert_eq!(errors, vec![GuessError::DuplicateInSeries]);
}

#[test]
fn input_validation_reports_duplicates_before_membership() {
    let errors = UserInput::validate(&vec![2, 2], &2).unwrap_err();
    assert_eq!(errors, vec![GuessError::DuplicateInSeries, GuessError::SuperzahlInSeries]);
}

#[test]
fn input_validation_accepts_a_valid_pair() {
    assert!(UserInput::validate(&vec![1, 45, 38, 5, 23, 19], &13).is_ok());
}
