use lotto::channel::Message;
use lotto::game::Guess;
use lotto::rules::UserInput;
use lotto::runner::{games_per_second_of, ChannelSetupError, Runner};
use lotto::signal::SearchSignal;
use std::sync::mpsc;

#[test]
fn the_signal_stays_set_once_set() {
    let signal = SearchSignal::new();
    assert!(!signal.observe());
    signal.signal_won();
    for _ in 0..100 {
        assert!(signal.observe());
    }
    // A redundant win signal is idempotent.
    signal.signal_won();
    assert!(signal.observe());
}

#[test]
fn a_missing_receiver_is_a_fatal_setup_error() {
    let runner = Runner::new();
    assert_eq!(runner.receive_messages().unwrap_err(), ChannelSetupError);
}

#[test]
fn a_default_coordinator_starts_empty() {
    let runner = Runner::default();
    assert_eq!(runner.num_played_games_until_win, 0);
    assert!(runner.receiver.is_none());
}

#[test]
fn draining_yields_the_messages_in_order_once_producers_release() {
    let (sender, receiver) = mpsc::channel::<Message>();
    let extra_sender = sender.clone();

    let mut runner = Runner::new();
    runner.attach_receiver(receiver);

    sender.send(Message::Progress { iterations: 1 }).unwrap();
    extra_sender.send(Message::Separator).unwrap();
    sender.send(Message::WinCount { iterations: 2 }).unwrap();

    // Every producer handle must be released or the drain would block.
    drop(sender);
    drop(extra_sender);

    let messages = runner.receive_messages().unwrap();
    assert_eq!(
        messages,
        vec![
            Message::Progress { iterations: 1 },
            Message::Separator,
            Message::WinCount { iterations: 2 },
        ]
    );
}

#[test]
fn a_held_producer_handle_blocks_the_drain() {
    let (sender, receiver) = mpsc::channel::<Message>();

    // While a producer handle is still held, an empty channel makes a
    // receive wait, rather than report the stream closed.
    let outcome = receiver.recv_timeout(std::time::Duration::from_millis(100));
    assert_eq!(outcome, Err(mpsc::RecvTimeoutError::Timeout));

    // Releasing the last handle closes the channel.
    drop(sender);
    let outcome = receiver.recv_timeout(std::time::Duration::from_millis(100));
    assert_eq!(outcome, Err(mpsc::RecvTimeoutError::Disconnected));
}

#[test]
fn collected_totals_are_the_exact_sum_of_worker_counts() {
    let mut runner = Runner::new();
    runner.collect_results(&vec![3, 4, 5]);
    assert_eq!(runner.num_played_games_until_win, 12);
    runner.collect_results(&vec![1]);
    assert_eq!(runner.num_played_games_until_win, 13);
    runner.collect_results(&vec![]);
    assert_eq!(runner.num_played_games_until_win, 13);
}

#[test]
fn throughput_guards_the_division_by_zero() {
    assert_eq!(games_per_second_of(0, 0), 0);
    assert_eq!(games_per_second_of(100, 0), 0);
    assert_eq!(games_per_second_of(100, 7), 14);
    assert_eq!(games_per_second_of(2352, 2), 1176);
}

#[test]
fn a_single_worker_run_terminates_and_announces_its_win() {
    let (sender, receiver) = mpsc::channel::<Message>();
    let mut runner = Runner::new();
    runner.attach_receiver(receiver);
    runner.start_timer();

    let guess = Guess::new(vec![7], 9, sender);
    assert!(guess.validate().is_ok());

    let signal = SearchSignal::new();
    let count = guess.run_games_until_win(&signal);

    assert!(count >= 1);
    assert!(signal.observe());

    // Release the last producer handle so that the drain can end.
    drop(guess);

    let messages = runner.receive_messages().unwrap();
    assert!(messages.len() >= 4);
    let tail = &messages[messages.len() - 4..];
    assert_eq!(tail[0], Message::Separator);
    assert_eq!(tail[1], Message::WinDraw { series: vec![7], superzahl: 9 });
    assert_eq!(tail[2], Message::WinCount { iterations: count });
    assert_eq!(tail[3], Message::Separator);

    runner.collect_results(&vec![count]);
    assert_eq!(runner.num_played_games_until_win, count);
}

#[test]
fn malformed_input_is_rejected_before_anything_is_published() {
    let (sender, receiver) = mpsc::channel::<Message>();
    let mut runner = Runner::new();
    runner.attach_receiver(receiver);

    let input = UserInput::new("1, 2, 2".to_string(), "4".to_string());
    let parsed = input.parse();
    assert!(parsed.is_err());

    // No worker was spawned, so releasing the coordinator's handle closes
    // the channel with nothing in it.
    drop(sender);
    let messages = runner.receive_messages().unwrap();
    assert!(messages.is_empty());
}
