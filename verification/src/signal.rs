//! The shared termination signal: a process-wide flag every worker observes
//! before each game and sets on a win.  The flag offers no reset, so its
//! abstract protocol is one-way; the monotonicity law is stated and proved
//! over that protocol below.

use std::sync::atomic::AtomicBool;
use std::sync::atomic::Ordering;
use vstd::prelude::*;

verus! {

/// The shared search state: one atomic flag, set once some worker has drawn
/// the guessed combination.  Shared read-only between all workers; the flag
/// inside carries the interior mutability.  What an observation returns
/// reflects stores by other threads, so nothing is stated of the value; the
/// protocol itself is stated over [`signal_after`] below.
pub struct SearchSignal {
    flag: AtomicBool,
}

impl SearchSignal {
    /// A fresh, still unset signal for one search run.
    pub fn new() -> SearchSignal {
        SearchSignal { flag: AtomicBool::new(false) }
    }

    /// Reads the flag: `true` once some worker has signalled a win.
    pub fn observe(&self) -> bool {
        self.flag.load(Ordering::SeqCst)
    }

    /// Marks the search as won.  There is no way back: no operation of this
    /// type ever stores `false` again.
    pub fn signal_won(&self) {
        self.flag.store(true, Ordering::SeqCst)
    }
}

/// One operation a worker performs on the signal.  `Observe` is a read;
/// `SignalWon` marks a win.  No unsetting operation exists.
#[derive(Clone, Copy, Debug, PartialEq, Eq, Structural)]
pub enum SignalOp {
    Observe,
    SignalWon,
}

/// The signal's value after one operation on a signal holding `state`.
pub open spec fn signal_step(state: bool, op: SignalOp) -> bool {
    match op {
        SignalOp::Observe => state,
        SignalOp::SignalWon => true,
    }
}

/// The signal's value after a whole run of operations, oldest first,
/// starting from `init`.
pub open spec fn signal_after(init: bool, ops: Seq<SignalOp>) -> bool
    decreases ops.len(),
{
    if ops.len() == 0 {
        init
    } else {
        signal_step(signal_after(init, ops.drop_last()), ops.last())
    }
}

/// Once the signal reads set at some point of a run, it reads set at every
/// later point of the run: no interleaving of observations and win signals,
/// by any number of workers, ever takes it back to unset.
pub proof fn lemma_signal_monotonic(init: bool, ops: Seq<SignalOp>, i: int, j: int)
    requires
        0 <= i <= j <= ops.len(),
        signal_after(init, ops.take(i)),
    ensures
        signal_after(init, ops.take(j)),
    decreases j - i,
{
    if i < j {
        assert(ops.take(i + 1).drop_last() =~= ops.take(i));
        assert(signal_after(init, ops.take(i + 1)));
        lemma_signal_monotonic(init, ops, i + 1, j);
    } else {
        assert(ops.take(j) =~= ops.take(i));
    }
}

} // verus!
