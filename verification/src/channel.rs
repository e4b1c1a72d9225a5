//! The progress channel: a many-producer, single-consumer stream of typed
//! messages from the workers to the coordinator.  The transport is the
//! standard mpsc channel, reached through trusted wrappers; the closing
//! protocol — the drain ends exactly when every producer handle is gone —
//! is stated and proved over the abstract channel state below.

use std::sync::mpsc::Receiver;
use std::sync::mpsc::Sender;
use vstd::prelude::*;

verus! {

/// One message a worker sends the coordinator.  The core only decides what
/// to report; the surrounding application renders the display text.
#[derive(Debug, PartialEq)]
pub enum Message {
    /// A horizontal rule around the win announcement.
    Separator,
    /// A throttled progress snapshot: how many games one worker has played.
    Progress { iterations: usize },
    /// The win announcement: the drawn primary numbers and the drawn
    /// Superzahl that matched the guess.
    WinDraw { series: Vec<u8>, superzahl: u8 },
    /// How many games the winning worker needed.
    WinCount { iterations: usize },
}

#[verifier::external_type_specification]
#[verifier::external_body]
#[verifier::reject_recursive_types(T)]
pub struct ExSender<T>(Sender<T>);

#[verifier::external_type_specification]
#[verifier::external_body]
#[verifier::reject_recursive_types(T)]
pub struct ExReceiver<T>(Receiver<T>);

/// Relies on std::sync::mpsc::Sender::send: enqueues the message, returning
/// `true`, unless the receiving end is gone, in which case nothing is
/// enqueued and the result is `false`.  Never blocks and never panics.
#[verifier::external_body]
pub fn send_message(sender: &Sender<Message>, message: Message) -> bool {
    sender.send(message).is_ok()
}

/// Relies on std::sync::mpsc::Receiver::recv: blocks for the oldest not yet
/// received message and hands it back, or hands back `None` once the channel
/// is empty and every sender has been dropped.  Which of the two happens
/// depends on the sending threads, so nothing is promised of the outcome.
#[verifier::external_body]
pub fn recv_message(receiver: &Receiver<Message>) -> Option<Message> {
    match receiver.recv() {
        Ok(m) => Some(m),
        Err(_) => None,
    }
}

/// The abstract state of the progress channel: the messages sent but not
/// yet received, oldest first, and how many producer handles are live.
pub struct ChannelState {
    /// Messages in flight, oldest first.
    pub queued: Seq<Message>,
    /// Live producer handles, the coordinator's own duplicate included.
    pub producers: nat,
}

/// What one blocking receive does to a channel in state `c`.
pub enum RecvOutcome {
    /// The oldest queued message is handed over.
    Delivered,
    /// The queue is empty and no producer handle is left: the stream ends
    /// and a drain loop terminates.
    Closed,
    /// The queue is empty but a producer handle is still live: the receive
    /// blocks until that handle sends or is released.
    Blocks,
}

/// The channel is closed exactly when every producer handle has been
/// released.
pub open spec fn channel_closed(c: ChannelState) -> bool {
    c.producers == 0
}

/// Duplicating a producer handle: one more live producer, the queue as is.
pub open spec fn channel_clone_producer(c: ChannelState) -> ChannelState
    recommends
        c.producers > 0,
{
    ChannelState { queued: c.queued, producers: c.producers + 1 }
}

/// Releasing a producer handle: one fewer live producer, the queue as is.
pub open spec fn channel_drop_producer(c: ChannelState) -> ChannelState
    recommends
        c.producers > 0,
{
    ChannelState { queued: c.queued, producers: (c.producers - 1) as nat }
}

/// Sending on a live handle: the message joins the end of the queue.
pub open spec fn channel_send(c: ChannelState, m: Message) -> ChannelState
    recommends
        c.producers > 0,
{
    ChannelState { queued: c.queued.push(m), producers: c.producers }
}

/// What a blocking receive meets in state `c`.
pub open spec fn channel_recv_outcome(c: ChannelState) -> RecvOutcome {
    if c.queued.len() > 0 {
        RecvOutcome::Delivered
    } else if c.producers == 0 {
        RecvOutcome::Closed
    } else {
        RecvOutcome::Blocks
    }
}

/// The closing law of the progress channel: with nothing left in the queue,
/// a drain's next receive ends the stream exactly when every producer
/// handle, the coordinator's own duplicate included, has been released —
/// and blocks for as long as one is still held.
pub proof fn lemma_drain_ends_iff_producers_released(c: ChannelState)
    requires
        c.queued.len() == 0,
    ensures
        channel_recv_outcome(c) == RecvOutcome::Closed <==> channel_closed(c),
        channel_recv_outcome(c) == RecvOutcome::Blocks <==> !channel_closed(c),
{
}

/// Releasing every live handle, one by one, closes the channel: after
/// `n` releases from `n` live producers none is left.
pub proof fn lemma_release_all_closes(c: ChannelState, n: nat)
    requires
        c.producers == n,
    ensures
        channel_closed(release_producers(c, n)),
    decreases n,
{
    if n > 0 {
        lemma_release_all_closes(channel_drop_producer(c), (n - 1) as nat);
    }
}

/// `n` producer releases in a row.
pub open spec fn release_producers(c: ChannelState, n: nat) -> ChannelState
    decreases n,
{
    if n == 0 {
        c
    } else {
        release_producers(channel_drop_producer(c), (n - 1) as nat)
    }
}

} // verus!
