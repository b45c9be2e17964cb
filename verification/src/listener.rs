//! The listener: what the background loop decides for each thing that a
//! receive attempt yields.
//!
//! The listener never touches the model. A text that it receives goes into
//! the handoff queue, and the foreground applies it from there.

use crate::endpoint::ConnectError;
use crate::frame::InboundFrame;
use crate::handoff::HandoffQueue;
use vstd::prelude::*;

verus! {

/// The time that the loop waits between two receive attempts unless it is
/// told otherwise, in milliseconds.
pub const DEFAULT_INTERVAL_MS: u64 = 100;

/// Why a receive attempt failed.
#[derive(Clone, Copy, Debug, PartialEq, Eq)]
pub enum ReceiveError {
    /// The connection failed.
    Io,
    /// What arrived was no well-formed frame.
    Malformed,
}

/// Where the loop stands.
#[derive(Clone, Copy, Debug, PartialEq, Eq)]
pub enum ListenerState {
    /// The loop goes on receiving.
    Listening,
    /// The peer closed the connection: the loop has ended normally.
    Closed,
    /// A receive attempt failed: the loop has ended with this error.
    Failed(ReceiveError),
}

/// What the loop does after a receive attempt.
#[derive(Clone, Debug, PartialEq, Eq)]
pub enum Step {
    /// Hand the text to the foreground, wait for the given number of
    /// milliseconds, and receive again.
    Publish { text: String, wait_ms: u64 },
    /// Wait for the given number of milliseconds, and receive again.
    Wait { wait_ms: u64 },
    /// End the loop.
    Stop,
}

/// The payload, where the receive attempt yielded a text frame.
pub open spec fn text_of(received: Result<InboundFrame, ReceiveError>) -> Option<Seq<char>> {
    match received {
        Ok(frame) => frame.text(),
        Err(_) => None,
    }
}

/// Whether the receive attempt yielded a close frame.
pub open spec fn is_close(received: Result<InboundFrame, ReceiveError>) -> bool {
    match received {
        Ok(frame) => frame.closes(),
        Err(_) => false,
    }
}

/// Whether the receive attempt yielded a frame that is no close frame.
pub open spec fn is_open_frame(received: Result<InboundFrame, ReceiveError>) -> bool {
    match received {
        Ok(frame) => !frame.closes(),
        Err(_) => false,
    }
}

/// The state after one receive attempt. A loop that has ended stays as it
/// ended.
pub open spec fn state_after_one(
    state: ListenerState,
    received: Result<InboundFrame, ReceiveError>,
) -> ListenerState {
    match state {
        ListenerState::Listening => match received {
            Ok(frame) => if frame.closes() {
                ListenerState::Closed
            } else {
                ListenerState::Listening
            },
            Err(error) => ListenerState::Failed(error),
        },
        _ => state,
    }
}

/// The text that one receive attempt hands to the foreground: the payload
/// of a text frame, while the loop goes on.
pub open spec fn forwarded_by_one(
    state: ListenerState,
    received: Result<InboundFrame, ReceiveError>,
) -> Option<Seq<char>> {
    match (state, received) {
        (ListenerState::Listening, Ok(frame)) => frame.text(),
        _ => None,
    }
}

/// The state after the receive attempts `received`, in order.
pub open spec fn state_after(
    state: ListenerState,
    received: Seq<Result<InboundFrame, ReceiveError>>,
) -> ListenerState
    decreases received.len(),
{
    if received.len() == 0 {
        state
    } else {
        state_after_one(state_after(state, received.drop_last()), received.last())
    }
}

/// The texts that the receive attempts `received` hand to the foreground,
/// in order.
pub open spec fn forwarded(
    state: ListenerState,
    received: Seq<Result<InboundFrame, ReceiveError>>,
) -> Seq<Seq<char>>
    decreases received.len(),
{
    if received.len() == 0 {
        Seq::empty()
    } else {
        let before = forwarded(state, received.drop_last());
        match forwarded_by_one(state_after(state, received.drop_last()), received.last()) {
            Some(text) => before.push(text),
            None => before,
        }
    }
}

/// Receiving `first` and then `second` is receiving the two in one run.
pub proof fn lemma_received_in_parts(
    state: ListenerState,
    first: Seq<Result<InboundFrame, ReceiveError>>,
    second: Seq<Result<InboundFrame, ReceiveError>>,
)
    ensures
        state_after(state, first + second) == state_after(state_after(state, first), second),
        forwarded(state, first + second) == forwarded(state, first) + forwarded(
            state_after(state, first),
            second,
        ),
    decreases second.len(),
{
    if second.len() == 0 {
        assert(first + second == first);
        assert(forwarded(state, first) + Seq::<Seq<char>>::empty() == forwarded(state, first));
    } else {
        lemma_received_in_parts(state, first, second.drop_last());
        assert((first + second).drop_last() == first + second.drop_last());
        assert((first + second).last() == second.last());
        let middle = state_after(state, first);
        let before = forwarded(middle, second.drop_last());
        match forwarded_by_one(state_after(middle, second.drop_last()), second.last()) {
            Some(text) => {
                assert((forwarded(state, first) + before).push(text) == forwarded(state, first)
                    + before.push(text));
            },
            None => {},
        }
    }
}

/// A loop that has ended stays as it ended and hands over nothing more.
pub proof fn lemma_ended_is_final(
    state: ListenerState,
    received: Seq<Result<InboundFrame, ReceiveError>>,
)
    requires
        state != ListenerState::Listening,
    ensures
        state_after(state, received) == state,
        forwarded(state, received) == Seq::<Seq<char>>::empty(),
    decreases received.len(),
{
    if received.len() > 0 {
        lemma_ended_is_final(state, received.drop_last());
    }
}

/// While no close frame and no failure arrives, the loop goes on, and the
/// last text that it hands over is the payload of the last text frame.
/// `at` is the place of the last text frame, or -1 if there is none.
pub proof fn lemma_forwarded_while_listening(
    received: Seq<Result<InboundFrame, ReceiveError>>,
    at: int,
)
    requires
        forall|i: int| 0 <= i < received.len() ==> is_open_frame(#[trigger] received[i]),
        -1 <= at < received.len(),
        at >= 0 ==> text_of(received[at]).is_some(),
        forall|i: int| at < i < received.len() ==> text_of(#[trigger] received[i]).is_none(),
    ensures
        state_after(ListenerState::Listening, received) == ListenerState::Listening,
        at >= 0 ==> forwarded(ListenerState::Listening, received).len() > 0 && Some(
            forwarded(ListenerState::Listening, received).last(),
        ) == text_of(received[at]),
        at < 0 ==> forwarded(ListenerState::Listening, received).len() == 0,
    decreases received.len(),
{
    if received.len() > 0 {
        let before = received.drop_last();
        let shorter = if at == received.len() - 1 { -1 } else { at };
        assert forall|i: int| 0 <= i < before.len() implies is_open_frame(#[trigger] before[i]) by {
            assert(before[i] == received[i]);
        }
        if at == received.len() - 1 {
            lemma_still_listening(before);
        } else {
            assert forall|i: int| at < i < before.len() implies text_of(#[trigger] before[i]).is_none() by {
                assert(before[i] == received[i]);
            }
            if at >= 0 {
                assert(before[at] == received[at]);
            }
            lemma_forwarded_while_listening(before, at);
        }
    }
}

/// While no close frame and no failure arrives, the loop goes on.
pub proof fn lemma_still_listening(received: Seq<Result<InboundFrame, ReceiveError>>)
    requires
        forall|i: int| 0 <= i < received.len() ==> is_open_frame(#[trigger] received[i]),
    ensures
        state_after(ListenerState::Listening, received) == ListenerState::Listening,
    decreases received.len(),
{
    if received.len() > 0 {
        let before = received.drop_last();
        assert forall|i: int| 0 <= i < before.len() implies is_open_frame(#[trigger] before[i]) by {
            assert(before[i] == received[i]);
        }
        lemma_still_listening(before);
    }
}

/// A listener that is listening ends at the first failed receive attempt
/// with the error of that attempt, whatever is received after it, and
/// forwards what it forwarded before it.
pub proof fn law_failure_ends_the_loop(
    received: Seq<Result<InboundFrame, ReceiveError>>,
    failure: int,
)
    requires
        0 <= failure < received.len(),
        received[failure] is Err,
        forall|i: int| 0 <= i < failure ==> is_open_frame(#[trigger] received[i]),
    ensures
        state_after(ListenerState::Listening, received) == ListenerState::Failed(
            received[failure]->Err_0,
        ),
        forwarded(ListenerState::Listening, received) == forwarded(
            ListenerState::Listening,
            received.take(failure),
        ),
{
    let before = received.take(failure);
    let through = received.take(failure + 1);
    let rest = received.skip(failure + 1);
    assert(through.drop_last() == before);
    assert(through.last() == received[failure]);
    assert forall|i: int| 0 <= i < before.len() implies is_open_frame(#[trigger] before[i]) by {
        assert(before[i] == received[i]);
    }
    lemma_still_listening(before);
    assert(through + rest == received);
    lemma_received_in_parts(ListenerState::Listening, through, rest);
    lemma_ended_is_final(ListenerState::Failed(received[failure]->Err_0), rest);
    assert(forwarded(ListenerState::Listening, through) + Seq::<Seq<char>>::empty() == forwarded(
        ListenerState::Listening,
        through,
    ));
}

/// The background loop's decisions.
pub struct Listener {
    interval_ms: u64,
    state: ListenerState,
}

impl Listener {
    /// The time to wait between two receive attempts, in milliseconds.
    pub closed spec fn interval(&self) -> u64 {
        self.interval_ms
    }

    /// Where the loop stands.
    pub closed spec fn state(&self) -> ListenerState {
        self.state
    }

    /// A listener for a connection that was just made.
    pub fn new(interval_ms: u64) -> (listener: Listener)
        ensures
            listener.interval() == interval_ms,
            listener.state() == ListenerState::Listening,
    {
        Listener { interval_ms, state: ListenerState::Listening }
    }

    /// The listener for what an attempt to connect came to. Without a
    /// connection there is no listener: the error goes back to the caller,
    /// and nothing is tried again.
    pub fn start(connection: Result<(), ConnectError>, interval_ms: u64) -> (listener: Result<
        Listener,
        ConnectError,
    >)
        ensures
            match connection {
                Ok(_) => {
                    &&& listener matches Ok(l)
                    &&& l.interval() == interval_ms
                    &&& l.state() == ListenerState::Listening
                },
                Err(error) => listener matches Err(e) && e == error,
            },
    {
        match connection {
            Ok(_) => Ok(Listener::new(interval_ms)),
            Err(error) => Err(error),
        }
    }

    /// The time to wait between two receive attempts, in milliseconds.
    pub fn interval_ms(&self) -> (interval_ms: u64)
        ensures
            interval_ms == self.interval(),
    {
        self.interval_ms
    }

    /// Where the loop stands.
    pub fn current_state(&self) -> (state: ListenerState)
        ensures
            state == self.state(),
    {
        self.state
    }

    /// Whether the loop goes on.
    pub fn is_listening(&self) -> (listening: bool)
        ensures
            listening == (self.state() == ListenerState::Listening),
    {
        match self.state {
            ListenerState::Listening => true,
            _ => false,
        }
    }

    /// How the loop ended: `None` while it goes on, `Some(Ok(()))` after a
    /// close frame, `Some(Err(..))` after a failed receive attempt.
    pub fn outcome(&self) -> (outcome: Option<Result<(), ReceiveError>>)
        ensures
            outcome == match self.state() {
                ListenerState::Listening => None::<Result<(), ReceiveError>>,
                ListenerState::Closed => Some(Ok(())),
                ListenerState::Failed(error) => Some(Err(error)),
            },
    {
        match self.state {
            ListenerState::Listening => None,
            ListenerState::Closed => Some(Ok(())),
            ListenerState::Failed(error) => Some(Err(error)),
        }
    }

    /// Decides what follows one receive attempt. A text frame is to be
    /// published; a close frame and a failure end the loop; every other
    /// frame is passed over. While the loop goes on, the listener's interval
    /// passes before the next receive attempt. Once the loop has ended
    /// nothing is published any more, whatever arrives.
    pub fn step(&mut self, received: Result<InboundFrame, ReceiveError>) -> (step: Step)
        ensures
            final(self).interval() == old(self).interval(),
            final(self).state() == state_after_one(old(self).state(), received),
            match step {
                Step::Publish { text, wait_ms } => {
                    &&& forwarded_by_one(old(self).state(), received) == Some(text@)
                    &&& final(self).state() == ListenerState::Listening
                    &&& wait_ms == old(self).interval()
                },
                Step::Wait { wait_ms } => {
                    &&& forwarded_by_one(old(self).state(), received).is_none()
                    &&& final(self).state() == ListenerState::Listening
                    &&& wait_ms == old(self).interval()
                },
                Step::Stop => {
                    &&& forwarded_by_one(old(self).state(), received).is_none()
                    &&& final(self).state() != ListenerState::Listening
                },
            },
    {
        match self.state {
            ListenerState::Listening => match received {
                Ok(InboundFrame::Text(text)) => Step::Publish { text, wait_ms: self.interval_ms },
                Ok(InboundFrame::Close(_)) => {
                    self.state = ListenerState::Closed;
                    Step::Stop
                },
                Ok(_) => Step::Wait { wait_ms: self.interval_ms },
                Err(error) => {
                    self.state = ListenerState::Failed(error);
                    Step::Stop
                },
            },
            _ => Step::Stop,
        }
    }

    /// One turn of the loop: decides what follows the receive attempt and
    /// hands a text that is to be published to the foreground, behind what
    /// is already pending. Returns whether the loop goes on.
    pub fn deliver(
        &mut self,
        received: Result<InboundFrame, ReceiveError>,
        handoffs: &mut HandoffQueue,
    ) -> (goes_on: bool)
        ensures
            final(self).interval() == old(self).interval(),
            final(self).state() == state_after_one(old(self).state(), received),
            final(handoffs)@ == match forwarded_by_one(old(self).state(), received) {
                Some(text) => old(handoffs)@.push(text),
                None => old(handoffs)@,
            },
            goes_on == (final(self).state() == ListenerState::Listening),
    {
        match self.step(received) {
            Step::Publish { text, wait_ms: _ } => {
                handoffs.submit(text);
                true
            },
            Step::Wait { wait_ms: _ } => true,
            Step::Stop => false,
        }
    }

    /// Runs the loop over everything that a burst of receive attempts
    /// yielded, in order, and stops at the first close frame or failure.
    /// Returns whether the loop goes on.
    pub fn pump(
        &mut self,
        received: Vec<Result<InboundFrame, ReceiveError>>,
        handoffs: &mut HandoffQueue,
    ) -> (goes_on: bool)
        ensures
            final(self).interval() == old(self).interval(),
            final(self).state() == state_after(old(self).state(), received@),
            final(handoffs)@ == old(handoffs)@ + forwarded(old(self).state(), received@),
            goes_on == (final(self).state() == ListenerState::Listening),
    {
        let ghost all = received@;
        let ghost start = self.state();
        assert(old(handoffs)@ + Seq::<Seq<char>>::empty() == old(handoffs)@);
        for one in it: received
            invariant
                it.seq() == all,
                all == received@,
                start == old(self).state(),
                self.interval() == old(self).interval(),
                self.state() == state_after(start, all.take(it.index() as int)),
                handoffs@ == old(handoffs)@ + forwarded(start, all.take(it.index() as int)),
        {
            let ghost done = all.take(it.index() as int);
            proof {
                assert(all.take(it.index() + 1).drop_last() == done);
            }
            let goes_on = self.deliver(one, handoffs);
            if !goes_on {
                proof {
                    let seen = all.take(it.index() + 1);
                    let rest = all.skip(it.index() + 1);
                    assert(seen + rest == all);
                    lemma_received_in_parts(start, seen, rest);
                    lemma_ended_is_final(self.state(), rest);
                    assert(forwarded(start, seen) + Seq::<Seq<char>>::empty() == forwarded(start, seen));
                }
                return false;
            }
        }
        assert(all.take(all.len() as int) == all);
        self.is_listening()
    }
}

} // verus!
