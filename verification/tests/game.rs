use lotto::channel::Message;
use lotto::game::{Guess, Outcome};
use lotto::signal::SearchSignal;
use std::sync::mpsc;

fn guess_of(series: Vec<u8>, superzahl: u8) -> Guess {
    let (sender, _receiver) = mpsc::channel::<Message>();
    Guess::new(series, superzahl, sender)
}

#[test]
fn every_draw_has_k_plus_one_distinct_values_in_range() {
    let guess = guess_of(vec![1, 45, 38, 5, 23, 19], 13);
    let mut outcome = Outcome::new(guess.max_pulls());

    for _ in 0..300 {
        guess.run_single_game(&mut outcome);
        let draw = &outcome.single_game;
        assert_eq!(draw.len(), 7);
        for &v in draw.iter() {
            assert!((1..=49).contains(&v));
        }
        for i in 0..draw.len() {
            for j in 0..i {
                assert_ne!(draw[i], draw[j]);
            }
        }
    }
}

#[test]
fn draws_of_every_series_size_stay_distinct() {
    for k in 1..=6u8 {
        let series: Vec<u8> = (1..=k).collect();
        let guess = guess_of(series, 49);
        let mut outcome = Outcome::new(guess.max_pulls());
        for _ in 0..50 {
            guess.run_single_game(&mut outcome);
            let draw = &outcome.single_game;
            assert_eq!(draw.len(), k as usize + 1);
            for i in 0..draw.len() {
                assert!((1..=49).contains(&draw[i]));
                for j in 0..i {
                    assert_ne!(draw[i], draw[j]);
                }
            }
        }
    }
}

#[test]
fn a_draw_matches_on_equal_superzahl_and_contained_series() {
    let guess = guess_of(vec![1, 2, 3], 4);
    let mut outcome = Outcome::new(4);

    outcome.single_game = vec![3, 1, 2, 4];
    assert!(guess.matches_draw(&outcome));

    // A foreign primary value breaks the match.
    outcome.single_game = vec![1, 2, 5, 4];
    assert!(!guess.matches_draw(&outcome));

    // A primary-only match without the Superzahl is no win.
    outcome.single_game = vec![1, 2, 3, 9];
    assert!(!guess.matches_draw(&outcome));
}

#[test]
fn a_match_does_not_depend_on_primary_order() {
    let guess = guess_of(vec![1, 2, 3], 4);
    let mut outcome = Outcome::new(4);

    outcome.single_game = vec![1, 2, 3, 4];
    assert!(guess.matches_draw(&outcome));
    outcome.single_game = vec![3, 2, 1, 4];
    assert!(guess.matches_draw(&outcome));
    outcome.single_game = vec![2, 3, 1, 4];
    assert!(guess.matches_draw(&outcome));
}

#[test]
fn extraction_splits_the_draw_into_series_and_superzahl() {
    let mut outcome = Outcome::new(3);
    outcome.single_game = vec![9, 8, 7];
    assert_eq!(outcome.extract_single_game_series(), &[9, 8]);
    assert_eq!(outcome.extract_single_game_superzahl(), 7);
}

#[test]
fn series_containment_ignores_position() {
    let guess = guess_of(vec![10, 20, 30], 5);
    assert!(guess.my_series_contains_all_of(&[30, 10]));
    assert!(guess.my_series_contains_all_of(&[]));
    assert!(!guess.my_series_contains_all_of(&[10, 40]));
}

#[test]
fn a_worker_finishes_once_the_signal_is_set() {
    let guess = guess_of(vec![1, 2, 3], 4);
    let signal = SearchSignal::new();
    assert!(!guess.has_finished(&signal));
    signal.signal_won();
    assert!(guess.has_finished(&signal));
}

#[test]
fn a_worker_with_a_preset_signal_plays_no_game() {
    let guess = guess_of(vec![1, 2, 3], 4);
    let signal = SearchSignal::new();
    signal.signal_won();
    assert_eq!(guess.run_games_until_win(&signal), 0);
}
