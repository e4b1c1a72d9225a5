//! One worker's game: drawing random candidate combinations and comparing
//! them against the guess until the shared signal reports a win.

use rand::Rng;
use vstd::prelude::*;

use crate::channel::{send_message, Message};
use crate::clock;
use crate::rules::{
    guess_acceptable, guess_error_list, in_range, lemma_guess_acceptable_iff_no_errors,
    series_distinct, series_in_range, vec_contains, vec_in_range, GuessError, MAX_SERIES_LENGTH,
    RANGE_MAX, RANGE_MIN,
};
use crate::signal::SearchSignal;
use std::sync::mpsc::Sender;
use std::time::Instant;
use vstd::set_lib::{lemma_int_range, lemma_len_subset, set_int_range};
use vstd::slice::{slice_subrange, slice_to_vec};

verus! {

/// How many times one pull samples anew after hitting a value the draw
/// already holds, before it falls back to a scan of the range.  The scan
/// keeps the pull terminating; with a range of 49 values and at most 7
/// filled slots, reaching it is vanishingly unlikely.
pub const SAMPLE_ATTEMPT_BUDGET: usize = 10000;

/// A worker publishes a progress snapshot when at least this much time has
/// passed since its last one.
pub const PROGRESS_THROTTLE_MILLIS: u128 = 3000;

/// A candidate draw wins against a guess exactly when its last value — the
/// drawn Superzahl — equals the guessed Superzahl and every other drawn
/// value occurs in the guessed series.  Where the drawn primary numbers sit
/// in the draw does not matter, only which values they are.
pub open spec fn draw_wins(draw: Seq<u8>, series: Seq<u8>, superzahl: u8) -> bool {
    &&& draw.len() > 0
    &&& draw.last() == superzahl
    &&& forall|i: int| 0 <= i < draw.len() - 1 ==> series.contains(#[trigger] draw[i])
}

/// Relies on rand::Rng::gen_range on the thread-local generator: a value
/// sampled uniformly from the inclusive range, always within it.  An empty
/// range would panic, which `requires` rules out.
#[verifier::external_body]
fn sample_in_range(lo: u8, hi: u8) -> (r: u8)
    requires
        lo <= hi,
    ensures
        lo <= r <= hi,
{
    rand::thread_rng().gen_range(lo..=hi)
}

/// A draw buffer shorter than the value range cannot hold every playable
/// value: some value of the range is missing from it.
pub proof fn lemma_short_buffer_misses_a_value(buf: Seq<u8>)
    requires
        buf.len() < 49,
    ensures
        exists|v: u8| in_range(v) && !buf.contains(v),
{
    broadcast use vstd::seq_lib::seq_to_set_is_finite;

    if forall|v: u8| in_range(v) ==> buf.contains(v) {
        let ints = buf.map_values(|b: u8| b as int);
        assert forall|x: int| set_int_range(1, 50).contains(x) implies ints.to_set().contains(
            x,
        ) by {
            let v = x as u8;
            assert(in_range(v));
            assert(buf.contains(v));
            let i = choose|i: int| 0 <= i < buf.len() && buf[i] == v;
            assert(ints[i] == x);
            assert(ints.contains(x));
        }
        lemma_int_range(1, 50);
        lemma_len_subset(set_int_range(1, 50), ints.to_set());
        ints.lemma_cardinality_of_set();
        assert(false);
    }
}

/// A sequence drawn from the same values as another, in whatever order,
/// lies in a series exactly when the other does.
proof fn lemma_subset_transfers(a: Seq<u8>, b: Seq<u8>, series: Seq<u8>)
    requires
        a.to_multiset() == b.to_multiset(),
        forall|i: int| 0 <= i < a.len() ==> series.contains(#[trigger] a[i]),
    ensures
        forall|i: int| 0 <= i < b.len() ==> series.contains(#[trigger] b[i]),
{
    assert forall|i: int| 0 <= i < b.len() implies series.contains(#[trigger] b[i]) by {
        let e = b[i];
        a.to_multiset_ensures();
        b.to_multiset_ensures();
        assert(b.contains(e));
        assert(a.to_multiset().count(e) > 0);
        assert(a.contains(e));
        let j = choose|j: int| 0 <= j < a.len() && a[j] == e;
        assert(series.contains(a[j]));
    }
}

/// Whether a draw wins does not depend on the order of its primary values:
/// two draws with the same drawn Superzahl whose primary values are the
/// same collection, however arranged, win against the same guesses.
pub proof fn lemma_win_order_independent(a: Seq<u8>, b: Seq<u8>, series: Seq<u8>, superzahl: u8)
    requires
        a.len() > 0,
        b.len() > 0,
        a.last() == b.last(),
        a.drop_last().to_multiset() == b.drop_last().to_multiset(),
    ensures
        draw_wins(a, series, superzahl) == draw_wins(b, series, superzahl),
{
    let pa = a.drop_last();
    let pb = b.drop_last();
    assert forall|i: int| 0 <= i < a.len() - 1 implies pa[i] == a[i] by {}
    assert forall|i: int| 0 <= i < b.len() - 1 implies pb[i] == b[i] by {}

    if draw_wins(a, series, superzahl) {
        assert forall|i: int| 0 <= i < pa.len() implies series.contains(#[trigger] pa[i]) by {
            assert(series.contains(a[i]));
        }
        lemma_subset_transfers(pa, pb, series);
        assert forall|i: int| 0 <= i < b.len() - 1 implies series.contains(#[trigger] b[i]) by {
            assert(series.contains(pb[i]));
        }
    }
    if draw_wins(b, series, superzahl) {
        assert forall|i: int| 0 <= i < pb.len() implies series.contains(#[trigger] pb[i]) by {
            assert(series.contains(b[i]));
        }
        lemma_subset_transfers(pb, pa, series);
        assert forall|i: int| 0 <= i < a.len() - 1 implies series.contains(#[trigger] a[i]) by {
            assert(series.contains(pa[i]));
        }
    }
}

/// One worker's running outcome: the latest candidate draw, how many games
/// it has played, and when it last published a progress snapshot.
pub struct Outcome {
    /// The latest candidate draw.  All but the last slot hold the drawn
    /// primary numbers; the last slot holds the drawn Superzahl.
    pub single_game: Vec<u8>,
    /// How many games this worker has played so far.
    pub num_tries: usize,
    /// When this worker last published a progress snapshot.
    pub last_poll: Instant,
}

impl Outcome {
    /// A fresh outcome with an all-zero draw buffer of `max_pulls` slots and
    /// no games played.
    pub fn new(max_pulls: usize) -> (r: Outcome)
        ensures
            r.single_game@.len() == max_pulls,
            forall|i: int| 0 <= i < max_pulls ==> r.single_game@[i] == 0,
            r.num_tries == 0,
    {
        let mut buf: Vec<u8> = Vec::new();
        while buf.len() < max_pulls
            invariant
                buf@.len() <= max_pulls,
                forall|i: int| 0 <= i < buf@.len() ==> buf@[i] == 0,
            decreases max_pulls - buf@.len(),
        {
            buf.push(0);
        }
        Outcome { single_game: buf, num_tries: 0, last_poll: clock::now() }
    }

    /// The drawn primary numbers: every slot of the draw but the last.
    pub fn extract_single_game_series(&self) -> (r: &[u8])
        requires
            self.single_game@.len() > 0,
        ensures
            r@ == self.single_game@.drop_last(),
    {
        let n = self.single_game.len();
        let s = slice_subrange(self.single_game.as_slice(), 0, n - 1);
        proof {
            assert(self.single_game@.subrange(0, n - 1) =~= self.single_game@.drop_last());
        }
        s
    }

    /// The drawn Superzahl: the last slot of the draw.
    pub fn extract_single_game_superzahl(&self) -> (r: u8)
        requires
            self.single_game@.len() > 0,
        ensures
            r == self.single_game@.last(),
    {
        self.single_game[self.single_game.len() - 1]
    }

    /// Publishes a progress snapshot, but only when the throttle allows it:
    /// at least [`PROGRESS_THROTTLE_MILLIS`] must have passed since the last
    /// snapshot.  The draw and the game count stay as they are.
    pub fn publish(&mut self, sender: &Sender<Message>)
        ensures
            final(self).single_game == old(self).single_game,
            final(self).num_tries == old(self).num_tries,
    {
        let now = clock::now();
        let diff = clock::duration_between(&now, &self.last_poll);

        if clock::duration_millis(&diff) > PROGRESS_THROTTLE_MILLIS {
            let _ = send_message(sender, Message::Progress { iterations: self.num_tries });
            self.last_poll = now;
        }
    }
}

/// The guess one search run races to draw: the primary series, the
/// Superzahl, and this worker's handle on the progress channel.  The guess
/// itself never changes after construction.
pub struct Guess {
    /// The guessed primary numbers, for example `[1, 45, 38, 5, 23, 19]`.
    pub my_series: Vec<u8>,
    /// The guessed Superzahl, distinct from every primary number.
    pub my_superzahl: u8,
    /// This worker's producer handle on the progress channel.
    pub sender: Sender<Message>,
}

impl Guess {
    /// The validity the input collaborator guarantees before a search
    /// starts; the search functions assume it.
    pub open spec fn acceptable(self) -> bool {
        guess_acceptable(self.my_series@, self.my_superzahl)
    }

    /// Wraps a guess together with a producer handle.
    pub fn new(series: Vec<u8>, superzahl: u8, sender: Sender<Message>) -> (r: Guess)
        ensures
            r.my_series@ == series@,
            r.my_superzahl == superzahl,
    {
        Guess { my_series: series, my_superzahl: superzahl, sender }
    }

    /// Decides which rejection reasons apply to this guess, in the fixed
    /// check order of [`guess_error_list`].  Returns `Ok` exactly when none
    /// does.
    pub fn validate(&self) -> (r: Result<(), Vec<GuessError>>)
        ensures
            r is Ok <==> guess_acceptable(self.my_series@, self.my_superzahl),
            r matches Err(v) ==> v@ == guess_error_list(self.my_series@, self.my_superzahl),
            r is Ok <==> guess_error_list(self.my_series@, self.my_superzahl).len() == 0,
    {
        let mut messages: Vec<GuessError> = Vec::new();

        if self.my_series.len() == 0 {
            messages.push(GuessError::EmptySeries);
        }
        if self.my_series.len() > MAX_SERIES_LENGTH {
            messages.push(GuessError::SeriesTooLong);
        }
        if !vec_in_range(&self.my_series) {
            messages.push(GuessError::SeriesValueOutOfRange);
        }
        if self.my_superzahl < RANGE_MIN || self.my_superzahl > RANGE_MAX {
            messages.push(GuessError::SuperzahlOutOfRange);
        }
        if vec_contains(&self.my_series, self.my_superzahl) {
            messages.push(GuessError::SuperzahlInSeries);
        }

        proof {
            assert(messages@ =~= guess_error_list(self.my_series@, self.my_superzahl));
            lemma_guess_acceptable_iff_no_errors(self.my_series@, self.my_superzahl);
        }

        if messages.len() > 0 {
            return Err(messages);
        }
        Ok(())
    }

    /// How many numbers one game draws: the series' worth plus one slot for
    /// the Superzahl.
    pub fn max_pulls(&self) -> (r: usize)
        requires
            self.my_series@.len() <= MAX_SERIES_LENGTH,
        ensures
            r == self.my_series@.len() + 1,
    {
        self.my_series.len() + 1
    }

    /// Whether every value of `slice` occurs in the guessed series,
    /// wherever it sits.
    pub fn my_series_contains_all_of(&self, slice: &[u8]) -> (r: bool)
        ensures
            r == forall|i: int|
                0 <= i < slice@.len() ==> self.my_series@.contains(#[trigger] slice@[i]),
    {
        let mut i: usize = 0;
        while i < slice.len()
            invariant
                0 <= i <= slice@.len(),
                forall|k: int| 0 <= k < i ==> self.my_series@.contains(#[trigger] slice@[k]),
            decreases slice@.len() - i,
        {
            if !vec_contains(&self.my_series, slice[i]) {
                assert(!self.my_series@.contains(slice@[i as int]));
                return false;
            }
            i = i + 1;
        }
        true
    }

    /// Decides whether the latest draw wins against this guess: the cheap
    /// single-value comparison of the Superzahl runs first and discards
    /// nearly every candidate before the set check on the series runs.
    pub fn matches_draw(&self, outcome: &Outcome) -> (r: bool)
        requires
            outcome.single_game@.len() > 0,
        ensures
            r == draw_wins(outcome.single_game@, self.my_series@, self.my_superzahl),
    {
        if self.my_superzahl != outcome.extract_single_game_superzahl() {
            return false;
        }
        let r = self.my_series_contains_all_of(outcome.extract_single_game_series());
        proof {
            let draw = outcome.single_game@;
            let pre = draw.drop_last();
            if r {
                assert forall|i: int| 0 <= i < draw.len() - 1 implies self.my_series@.contains(
                    #[trigger] draw[i],
                ) by {
                    assert(self.my_series@.contains(pre[i]));
                }
            } else {
                assert(exists|i: int|
                    0 <= i < pre.len() && !self.my_series@.contains(#[trigger] pre[i]));
                let i = choose|i: int|
                    0 <= i < pre.len() && !self.my_series@.contains(#[trigger] pre[i]);
                assert(draw[i] == pre[i]);
            }
        }
        r
    }

    /// One number pulled for the current draw: within the range and not yet
    /// in the draw buffer.  Pulls are sampled; after
    /// [`SAMPLE_ATTEMPT_BUDGET`] collisions in a row a scan of the range
    /// supplies the missing value, so the pull provably terminates.
    fn pull_single_number(&self, result: &mut Outcome) -> (r: u8)
        requires
            old(result).single_game@.len() < 49,
        ensures
            *final(result) == *old(result),
            in_range(r),
            !final(result).single_game@.contains(r),
    {
        let mut attempts: usize = 0;
        while attempts < SAMPLE_ATTEMPT_BUDGET
            invariant
                *result == *old(result),
            decreases SAMPLE_ATTEMPT_BUDGET - attempts,
        {
            let pulled_number = sample_in_range(RANGE_MIN, RANGE_MAX);
            if !vec_contains(&result.single_game, pulled_number) {
                return pulled_number;
            }
            attempts = attempts + 1;
        }

        let mut v: u8 = RANGE_MIN;
        loop
            invariant
                *result == *old(result),
                result.single_game@.len() < 49,
                RANGE_MIN <= v <= RANGE_MAX + 1,
                forall|w: u8| RANGE_MIN <= w < v ==> result.single_game@.contains(w),
            decreases RANGE_MAX + 1 - v,
        {
            if v > RANGE_MAX {
                proof {
                    lemma_short_buffer_misses_a_value(result.single_game@);
                    let m = choose|m: u8| in_range(m) && !result.single_game@.contains(m);
                    assert(result.single_game@.contains(m));
                    assert(false);
                }
                return RANGE_MIN;
            }
            if !vec_contains(&result.single_game, v) {
                return v;
            }
            v = v + 1;
        }
    }

    /// Plays one game: refills every slot of the draw buffer with freshly
    /// pulled numbers.  The buffer keeps its size and afterwards holds
    /// pairwise-distinct values, all within the range; the game count and
    /// the throttle state stay as they are.
    pub fn run_single_game(&self, result: &mut Outcome)
        requires
            old(result).single_game@.len() < 49,
        ensures
            final(result).single_game@.len() == old(result).single_game@.len(),
            series_in_range(final(result).single_game@),
            series_distinct(final(result).single_game@),
            final(result).num_tries == old(result).num_tries,
    {
        let n = result.single_game.len();

        let mut i: usize = 0;
        while i < n
            invariant
                0 <= i <= n,
                result.single_game@.len() == n == old(result).single_game@.len() < 49,
                result.num_tries == old(result).num_tries,
                forall|k: int| 0 <= k < i ==> #[trigger] result.single_game@[k] == 0,
            decreases n - i,
        {
            result.single_game[i] = 0;
            i = i + 1;
        }

        let mut i: usize = 0;
        while i < n
            invariant
                0 <= i <= n,
                result.single_game@.len() == n == old(result).single_game@.len() < 49,
                result.num_tries == old(result).num_tries,
                forall|k: int| 0 <= k < i ==> in_range(#[trigger] result.single_game@[k]),
                forall|p: int, q: int|
                    0 <= p < q < i ==> #[trigger] result.single_game@[p]
                        != #[trigger] result.single_game@[q],
                forall|k: int| i <= k < n ==> #[trigger] result.single_game@[k] == 0,
            decreases n - i,
        {
            let pulled_number = self.pull_single_number(result);
            result.single_game[i] = pulled_number;
            i = i + 1;
        }
    }

    /// Announces this worker's win on the progress channel — separator, the
    /// matched draw, the games it took, separator, bypassing the throttle —
    /// and then sets the shared termination signal.
    fn on_win(&self, outcome: &Outcome, signal: &SearchSignal)
        requires
            outcome.single_game@.len() > 0,
    {
        let _ = send_message(&self.sender, Message::Separator);

        let series = slice_to_vec(outcome.extract_single_game_series());
        let superzahl = outcome.extract_single_game_superzahl();
        let _ = send_message(&self.sender, Message::WinDraw { series, superzahl });

        let _ = send_message(&self.sender, Message::WinCount { iterations: outcome.num_tries });

        let _ = send_message(&self.sender, Message::Separator);

        signal.signal_won();
    }

    /// Whether the shared signal already reports a win, by this worker or
    /// any other.  Checked at the top of every loop turn as the sole
    /// stopping condition.
    pub fn has_finished(&self, signal: &SearchSignal) -> bool {
        if !signal.observe() {
            return false;
        }
        true
    }

    /// Plays games until the shared signal reports a win: each turn checks
    /// the signal, draws one candidate, publishes throttled progress, and on
    /// a match announces the win and sets the signal.  Returns how many
    /// games this worker played.  How many that takes rides on the random
    /// draws and on the other workers, so no more is promised of the count;
    /// what each drawn candidate and each announced win look like is
    /// promised by [`Guess::run_single_game`] and [`Guess::matches_draw`].
    /// The loop carries a finite game budget so that it provably terminates;
    /// at `usize::MAX` games the budget outlasts any practical run.
    pub fn run_games_until_win(&self, signal: &SearchSignal) -> (r: usize)
        requires
            self.acceptable(),
    {
        let mut outcome = Outcome::new(self.max_pulls());
        let mut budget: usize = usize::MAX;

        loop
            invariant
                self.acceptable(),
                outcome.single_game@.len() == self.my_series@.len() + 1,
                outcome.num_tries + budget <= usize::MAX,
            decreases budget,
        {
            if self.has_finished(signal) {
                break;
            }
            if budget == 0 {
                break;
            }
            budget = budget - 1;

            self.run_single_game(&mut outcome);
            outcome.num_tries = outcome.num_tries + 1;
            outcome.publish(&self.sender);

            if self.matches_draw(&outcome) {
                self.on_win(&outcome, signal);
            }
        }

        outcome.num_tries
    }
}

} // verus!
