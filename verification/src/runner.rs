//! The coordinator's side of a search run: owning the consuming end of the
//! progress channel, draining it, summing the workers' returned game counts
//! and deriving the summary figures.  Spawning and joining the worker
//! threads themselves is the surrounding application's business; it hands
//! the joined counts back in.

use vstd::prelude::*;

use crate::channel::{recv_message, Message};
use crate::clock;
use std::sync::mpsc::Receiver;
use std::time::Instant;

verus! {

/// The consuming end of the progress channel was never attached: draining
/// is impossible and the run must be treated as fatally mis-set-up.
#[derive(Clone, Copy, Debug, PartialEq, Eq, Structural)]
pub struct ChannelSetupError;

/// The sum of the workers' game counts.
pub open spec fn sum_counts(s: Seq<usize>) -> int
    decreases s.len(),
{
    if s.len() == 0 {
        0
    } else {
        sum_counts(s.drop_last()) + s.last()
    }
}

/// The whole-run aggregate: games per second, with the division guarded
/// when the elapsed time rounds down to no whole second.
pub open spec fn spec_games_per_second(total: usize, secs: u64) -> int {
    if secs == 0 {
        0
    } else {
        total as int / secs as int
    }
}

/// One search run's coordinator state: the games played over all workers,
/// the run's start and end moments, and the consuming end of the progress
/// channel once attached.
pub struct Runner {
    /// Games played over all workers, summed as they are joined.
    pub num_played_games_until_win: usize,
    /// When the search started.
    pub start_time: Instant,
    /// When the last worker was joined.
    pub end_time: Instant,
    /// The consuming end of the progress channel, once attached.
    pub receiver: Option<Receiver<Message>>,
}

impl Runner {
    /// A fresh coordinator: no games counted, no consuming end attached
    /// yet, both time marks at the moment of creation.
    pub fn new() -> (r: Runner)
        ensures
            r.num_played_games_until_win == 0,
            r.receiver is None,
    {
        Runner {
            num_played_games_until_win: 0,
            start_time: clock::now(),
            end_time: clock::now(),
            receiver: None,
        }
    }

    /// Hands the coordinator the consuming end of the progress channel.
    /// Everything else stays as it is.
    pub fn attach_receiver(&mut self, receiver: Receiver<Message>)
        ensures
            final(self).receiver is Some,
            final(self).num_played_games_until_win == old(self).num_played_games_until_win,
            final(self).start_time == old(self).start_time,
            final(self).end_time == old(self).end_time,
    {
        self.receiver = Some(receiver);
    }

    /// Marks the start of the search, just before the workers spawn.
    pub fn start_timer(&mut self)
        ensures
            final(self).num_played_games_until_win == old(self).num_played_games_until_win,
            final(self).receiver == old(self).receiver,
            final(self).end_time == old(self).end_time,
    {
        self.start_time = clock::now();
    }

    /// Drains the progress channel: blocks for message after message, in
    /// arrival order, until every producer handle is released and the
    /// stream ends, and hands the drained messages back for display.  Fails
    /// exactly when no consuming end was ever attached — a fatal set-up
    /// error, as no message could ever be evaluated.
    pub fn receive_messages(&self) -> (r: Result<Vec<Message>, ChannelSetupError>)
        ensures
            r is Ok <==> self.receiver is Some,
            r is Err <==> self.receiver is None,
    {
        if self.receiver.is_none() {
            return Err(ChannelSetupError);
        }
        let receiver = self.receiver.as_ref().unwrap();

        let mut received: Vec<Message> = Vec::new();
        // A finite drain budget keeps termination provable; at `usize::MAX`
        // messages it outlasts any practical run.
        let mut budget: usize = usize::MAX;
        loop
            decreases budget,
        {
            if budget == 0 {
                break;
            }
            budget = budget - 1;
            match recv_message(receiver) {
                Some(message) => received.push(message),
                None => break,
            }
        }
        Ok(received)
    }

    /// Adds every joined worker's returned game count to the total: the
    /// reported total is exactly the sum of the individual counts, nothing
    /// counted twice and nothing lost.  Also marks the end of the run.
    pub fn collect_results(&mut self, counts: &Vec<usize>)
        requires
            old(self).num_played_games_until_win + sum_counts(counts@) <= usize::MAX,
        ensures
            final(self).num_played_games_until_win == old(self).num_played_games_until_win
                + sum_counts(counts@),
            final(self).receiver == old(self).receiver,
            final(self).start_time == old(self).start_time,
    {
        let mut i: usize = 0;
        while i < counts.len()
            invariant
                0 <= i <= counts@.len(),
                old(self).num_played_games_until_win + sum_counts(counts@) <= usize::MAX,
                self.num_played_games_until_win == old(self).num_played_games_until_win
                    + sum_counts(counts@.take(i as int)),
                self.receiver == old(self).receiver,
                self.start_time == old(self).start_time,
            decreases counts@.len() - i,
        {
            proof {
                assert(counts@.take(i as int + 1).drop_last() =~= counts@.take(i as int));
                assert(counts@.take(i as int + 1).last() == counts@[i as int]);
                lemma_sum_counts_take_bound(counts@, i as int + 1);
            }
            self.num_played_games_until_win = self.num_played_games_until_win + counts[i];
            i = i + 1;
        }
        proof {
            assert(counts@.take(counts@.len() as int) =~= counts@);
        }
        self.end_time = clock::now();
    }

    /// How many whole seconds the run took, from the start mark to the end
    /// mark.
    pub fn duration_seconds(&self) -> u64 {
        let diff = clock::duration_between(&self.end_time, &self.start_time);
        clock::duration_secs(&diff)
    }

    /// The run's throughput from its own marks: total games over elapsed
    /// whole seconds, zero when the elapsed time rounds down to zero.
    pub fn games_per_second(&self) -> usize {
        let secs = self.duration_seconds();
        games_per_second_of(self.num_played_games_until_win, secs)
    }
}

impl Default for Runner {
    /// The same fresh coordinator [`Runner::new`] hands out.
    fn default() -> (r: Runner)
        ensures
            r.num_played_games_until_win == 0,
            r.receiver is None,
    {
        Runner::new()
    }
}

/// Throughput from a given total and elapsed time: the division is guarded,
/// so a run whose elapsed time rounds down to no whole second reports zero
/// rather than dividing by zero.
pub fn games_per_second_of(total: usize, secs: u64) -> (r: usize)
    ensures
        r == spec_games_per_second(total, secs),
{
    if secs == 0 {
        return 0;
    }
    if (total as u64) < secs {
        proof {
            assert(total as int / secs as int == 0) by (nonlinear_arith)
                requires
                    0 <= total < secs,
            ;
        }
        return 0;
    }
    let q = (total as u64) / secs;
    proof {
        assert(q <= total) by (nonlinear_arith)
            requires
                secs >= 1 && q == total as u64 / secs,
        ;
    }
    q as usize
}

/// The sum over a prefix never exceeds the sum over the whole sequence.
proof fn lemma_sum_counts_take_bound(s: Seq<usize>, n: int)
    requires
        0 <= n <= s.len(),
    ensures
        sum_counts(s.take(n)) <= sum_counts(s),
    decreases s.len() - n,
{
    if n < s.len() {
        assert(s.take(n + 1).drop_last() =~= s.take(n));
        assert(s.take(n + 1).last() == s[n]);
        lemma_sum_counts_take_bound(s, n + 1);
    } else {
        assert(s.take(n) =~= s);
    }
}

} // verus!
