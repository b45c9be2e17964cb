//! The bridge between the two sides of the chat.
//!
//! The background side receives and only ever appends to the handoff queue.
//! The foreground side owns the model and the views: it alone applies what
//! is pending, in the order in which it was handed over, and it alone draws.

use crate::chat::Chat;
use crate::chat::ChatState;
use crate::event_cell::Registry;
use crate::frame::InboundFrame;
use crate::handoff::HandoffQueue;
use crate::listener::forwarded;
use crate::listener::is_close;
use crate::listener::is_open_frame;
use crate::listener::text_of;
use crate::listener::state_after;
use crate::listener::Listener;
use crate::listener::ListenerState;
use crate::listener::ReceiveError;
use crate::model::published;
use crate::model::states;
use crate::model::Model;
use vstd::prelude::*;

verus! {

/// What a bridge is, mathematically.
pub ghost struct BridgeState {
    /// The model's text.
    pub text: Option<Seq<char>>,
    /// The model's subscribers.
    pub registry: Registry,
    /// The views, oldest first.
    pub views: Seq<ChatState>,
    /// The texts that were handed over and not yet applied, oldest first.
    pub pending: Seq<Seq<char>>,
}

impl BridgeState {
    /// The model is well formed, and its subscribers are the views, in
    /// the same order.
    pub open spec fn wf(self) -> bool {
        &&& self.registry.wf()
        &&& self.views.len() == self.registry.subscribers.len()
        &&& forall|k: int|
            0 <= k < self.views.len() ==> (#[trigger] self.views[k]).subscription == Some(
                self.registry.subscribers[k],
            )
    }

    /// The bridge after the background handed over `texts`.
    pub open spec fn handed(self, texts: Seq<Seq<char>>) -> BridgeState {
        BridgeState { pending: self.pending + texts, ..self }
    }

    /// The bridge after the foreground applied the oldest pending text.
    pub open spec fn applied_one(self) -> BridgeState {
        BridgeState {
            text: Some(self.pending.first()),
            views: published(self.views, self.registry.subscribers, self.pending.first()),
            pending: self.pending.drop_first(),
            ..self
        }
    }

    /// The bridge after the foreground applied everything that is pending,
    /// oldest first.
    pub open spec fn applied(self) -> BridgeState
        decreases self.pending.len(),
    {
        if self.pending.len() == 0 {
            self
        } else {
            self.applied_one().applied()
        }
    }

    /// The bridge after a render step.
    pub open spec fn drawn(self) -> BridgeState {
        BridgeState { views: Seq::new(self.views.len(), |k: int| self.views[k].drawn()), ..self }
    }

    /// What a render step draws, view by view.
    pub open spec fn frames(self) -> Seq<Option<Seq<char>>> {
        Seq::new(self.views.len(), |k: int| self.views[k].frame())
    }
}

/// The text that is current once `texts` were applied, oldest first, to a
/// state whose text was `text`: the last of them, or `text` if there were
/// none.
pub open spec fn latest(text: Option<Seq<char>>, texts: Seq<Seq<char>>) -> Option<Seq<char>> {
    if texts.len() == 0 {
        text
    } else {
        Some(texts.last())
    }
}

/// A view after it was notified of `texts`, oldest first.
pub open spec fn caught_up(view: ChatState, texts: Seq<Seq<char>>) -> ChatState {
    if texts.len() == 0 {
        view
    } else {
        view.notified(texts.last())
    }
}

/// Applying what is pending leaves nothing pending, keeps the subscribers,
/// and brings the model and every view to the latest pending text.
pub proof fn lemma_applied(bridge: BridgeState)
    requires
        bridge.wf(),
    ensures
        bridge.applied().wf(),
        bridge.applied().pending.len() == 0,
        bridge.applied().registry == bridge.registry,
        bridge.applied().text == latest(bridge.text, bridge.pending),
        bridge.applied().views.len() == bridge.views.len(),
        forall|k: int|
            0 <= k < bridge.views.len() ==> (#[trigger] bridge.applied().views[k]) == caught_up(
                bridge.views[k],
                bridge.pending,
            ),
    decreases bridge.pending.len(),
{
    if bridge.pending.len() > 0 {
        let next = bridge.applied_one();
        assert forall|k: int| 0 <= k < next.views.len() implies (#[trigger] next.views[k])
            == bridge.views[k].notified(bridge.pending.first()) by {
            assert(bridge.views[k].subscription == Some(bridge.registry.subscribers[k]));
        }
        lemma_applied(next);
        if next.pending.len() > 0 {
            assert(next.pending.last() == bridge.pending.last());
        }
    }
}

/// Whatever the bridge holds, once a listener that is listening has
/// received one or more frames that are all text frames, and the foreground
/// has applied what is pending, the model and every view hold the payload
/// of the last frame, and every view draws it.
pub proof fn law_last_text_wins(bridge: BridgeState, frames: Seq<Result<InboundFrame, ReceiveError>>)
    requires
        bridge.wf(),
        frames.len() > 0,
        forall|i: int| 0 <= i < frames.len() ==> text_of(#[trigger] frames[i]).is_some(),
    ensures
        state_after(ListenerState::Listening, frames) == ListenerState::Listening,
        ({
            let last = text_of(frames.last())->Some_0;
            let after = bridge.handed(forwarded(ListenerState::Listening, frames)).applied();
            &&& after.text == Some(last)
            &&& after.views.len() == bridge.views.len()
            &&& forall|k: int|
                0 <= k < after.views.len() ==> {
                    &&& (#[trigger] after.views[k]).text == Some(last)
                    &&& after.views[k].frame() == Some("Message, "@ + last + "!"@)
                }
        }),
{
    assert forall|i: int| 0 <= i < frames.len() implies is_open_frame(#[trigger] frames[i]) by {
        assert(text_of(frames[i]).is_some());
    }
    crate::listener::lemma_forwarded_while_listening(frames, frames.len() - 1);
    lemma_applied(bridge.handed(forwarded(ListenerState::Listening, frames)));
}

/// What the foreground ends up with does not depend on when it runs: applying what a first run of receive attempts handed over, and
/// then what a second run handed over, leaves the bridge as applying
/// everything at once after both runs does.
pub proof fn law_timing_does_not_matter(
    bridge: BridgeState,
    state: ListenerState,
    first: Seq<Result<InboundFrame, ReceiveError>>,
    second: Seq<Result<InboundFrame, ReceiveError>>,
)
    requires
        bridge.wf(),
    ensures
        bridge.handed(forwarded(state, first)).applied().handed(
            forwarded(state_after(state, first), second),
        ).applied() == bridge.handed(forwarded(state, first + second)).applied(),
{
    let x = forwarded(state, first);
    let y = forwarded(state_after(state, first), second);
    crate::listener::lemma_received_in_parts(state, first, second);
    let spaced_once = bridge.handed(x).applied();
    let spaced = spaced_once.handed(y).applied();
    let burst = bridge.handed(x + y).applied();
    lemma_applied(bridge.handed(x));
    lemma_applied(spaced_once.handed(y));
    lemma_applied(bridge.handed(x + y));
    assert(spaced_once.handed(y).pending == y);
    assert(bridge.handed(x + y).pending == (bridge.pending + x) + y);
    assert(spaced.views =~= burst.views);
    assert(spaced.pending =~= burst.pending);
}

/// A listener that is listening and receives frames up to a first close
/// frame, at `close`, ends normally, with no error, whatever is received
/// after that frame. If `at` is the place of the last text frame before the
/// close frame, the model holds that frame's payload once the foreground
/// has applied what is pending.
pub proof fn law_close_keeps_last_text(
    bridge: BridgeState,
    frames: Seq<Result<InboundFrame, ReceiveError>>,
    close: int,
    at: int,
)
    requires
        bridge.wf(),
        0 <= close < frames.len(),
        is_close(frames[close]),
        forall|i: int| 0 <= i < close ==> is_open_frame(#[trigger] frames[i]),
        0 <= at < close,
        text_of(frames[at]).is_some(),
        forall|i: int| at < i < close ==> text_of(#[trigger] frames[i]).is_none(),
    ensures
        state_after(ListenerState::Listening, frames) == ListenerState::Closed,
        bridge.handed(forwarded(ListenerState::Listening, frames)).applied().text == text_of(
            frames[at],
        ),
{
    lemma_up_to_close(frames, close, at);
    lemma_applied(bridge.handed(forwarded(ListenerState::Listening, frames)));
}

/// Where no text frame comes before the first close frame, the listener
/// ends normally as well, and the model holds what it held, or the latest
/// text that was already pending.
pub proof fn law_close_without_text(
    bridge: BridgeState,
    frames: Seq<Result<InboundFrame, ReceiveError>>,
    close: int,
)
    requires
        bridge.wf(),
        0 <= close < frames.len(),
        is_close(frames[close]),
        forall|i: int| 0 <= i < close ==> is_open_frame(#[trigger] frames[i]),
        forall|i: int| 0 <= i < close ==> text_of(#[trigger] frames[i]).is_none(),
    ensures
        state_after(ListenerState::Listening, frames) == ListenerState::Closed,
        bridge.handed(forwarded(ListenerState::Listening, frames)).applied().text == latest(
            bridge.text,
            bridge.pending,
        ),
{
    lemma_up_to_close(frames, close, -1);
    assert(bridge.pending + Seq::<Seq<char>>::empty() == bridge.pending);
    lemma_applied(bridge.handed(forwarded(ListenerState::Listening, frames)));
}

/// What a listening listener makes of frames with a first close frame at
/// `close`: it ends as closed, and it forwards what it forwarded before
/// that frame. `at` is the place of the last text frame before the close
/// frame, or -1 if there is none.
proof fn lemma_up_to_close(frames: Seq<Result<InboundFrame, ReceiveError>>, close: int, at: int)
    requires
        0 <= close < frames.len(),
        is_close(frames[close]),
        forall|i: int| 0 <= i < close ==> is_open_frame(#[trigger] frames[i]),
        -1 <= at < close,
        at >= 0 ==> text_of(frames[at]).is_some(),
        forall|i: int| at < i < close ==> text_of(#[trigger] frames[i]).is_none(),
    ensures
        state_after(ListenerState::Listening, frames) == ListenerState::Closed,
        at >= 0 ==> forwarded(ListenerState::Listening, frames).len() > 0 && Some(
            forwarded(ListenerState::Listening, frames).last(),
        ) == text_of(frames[at]),
        at < 0 ==> forwarded(ListenerState::Listening, frames).len() == 0,
{
    let before = frames.take(close);
    let through = frames.take(close + 1);
    let rest = frames.skip(close + 1);
    assert(through.drop_last() == before);
    assert(through.last() == frames[close]);
    assert forall|i: int| 0 <= i < before.len() implies is_open_frame(#[trigger] before[i]) by {
        assert(before[i] == frames[i]);
    }
    assert forall|i: int| at < i < before.len() implies text_of(#[trigger] before[i]).is_none() by {
        assert(before[i] == frames[i]);
    }
    if at >= 0 {
        assert(before[at] == frames[at]);
    }
    crate::listener::lemma_forwarded_while_listening(before, at);
    assert(through + rest == frames);
    crate::listener::lemma_received_in_parts(ListenerState::Listening, through, rest);
    crate::listener::lemma_ended_is_final(ListenerState::Closed, rest);
    assert(forwarded(ListenerState::Listening, through) + Seq::<Seq<char>>::empty() == forwarded(
        ListenerState::Listening,
        through,
    ));
}

/// The model, its views, and what the background has handed over for them.
pub struct Bridge {
    model: Model,
    views: Vec<Chat>,
    handoffs: HandoffQueue,
}

impl View for Bridge {
    type V = BridgeState;

    closed spec fn view(&self) -> BridgeState {
        BridgeState {
            text: self.model@.text,
            registry: self.model@.registry,
            views: states(self.views@),
            pending: self.handoffs@,
        }
    }
}

impl Bridge {
    /// The invariant of every bridge that this module hands out.
    pub open spec fn wf(&self) -> bool {
        self@.wf()
    }

    /// A bridge with a fresh model, no view and nothing pending.
    pub fn new() -> (bridge: Bridge)
        ensures
            bridge@ == (BridgeState {
                text: None,
                registry: Registry { subscribers: Seq::empty(), issued: 0 },
                views: Seq::empty(),
                pending: Seq::empty(),
            }),
            bridge.wf(),
    {
        let bridge = Bridge { model: Chat::build_model(), views: Vec::new(), handoffs: HandoffQueue::new() };
        assert(bridge@.views =~= Seq::<ChatState>::empty());
        assert(bridge@.registry.subscribers =~= Seq::<u64>::empty());
        assert(bridge@.registry == (Registry { subscribers: Seq::empty(), issued: 0 }));
        bridge
    }

    /// The model.
    pub fn model(&self) -> (model: &Model)
        ensures
            model@.text == self@.text,
            model@.registry == self@.registry,
    {
        &self.model
    }

    /// The number of views.
    pub fn view_count(&self) -> (count: usize)
        ensures
            count == self@.views.len(),
    {
        self.views.len()
    }

    /// The view at `index`, if there is one.
    pub fn view_at(&self, index: usize) -> (view: Option<&Chat>)
        ensures
            match view {
                Some(v) => index < self@.views.len() && v@ == self@.views[index as int],
                None => index >= self@.views.len(),
            },
    {
        if index < self.views.len() {
            Some(&self.views[index])
        } else {
            None
        }
    }

    /// The number of texts that are pending.
    pub fn pending(&self) -> (count: usize)
        ensures
            count == self@.pending.len(),
    {
        self.handoffs.len()
    }

    /// Opens one more view of the model, behind the others, and returns its
    /// index.
    pub fn open_view(&mut self) -> (index: usize)
        requires
            old(self).wf(),
            old(self)@.registry.issued < u64::MAX,
        ensures
            index == old(self)@.views.len(),
            final(self)@ == (BridgeState {
                registry: old(self)@.registry.subscribed(),
                views: old(self)@.views.push(
                    ChatState { text: None, subscription: Some(old(self)@.registry.issued as u64), dirty: true },
                ),
                ..old(self)@
            }),
            final(self).wf(),
    {
        let index = self.views.len();
        let view = Chat::build_view(&mut self.model);
        self.views.push(view);
        assert(self@.views =~= old(self)@.views.push(
            ChatState { text: None, subscription: Some(old(self)@.registry.issued as u64), dirty: true },
        ));
        index
    }

    /// Destroys the view at `index`. Its subscription ends with it, and the
    /// views behind it move up. Returns whether there was such a view.
    pub fn close_view(&mut self, index: usize) -> (closed: bool)
        requires
            old(self).wf(),
        ensures
            closed == (index < old(self)@.views.len()),
            closed ==> final(self)@ == (BridgeState {
                registry: old(self)@.registry.unsubscribed(old(self)@.registry.subscribers[index as int]),
                views: old(self)@.views.remove(index as int),
                ..old(self)@
            }),
            closed ==> final(self)@.registry.subscribers == old(self)@.registry.subscribers.remove(
                index as int,
            ),
            !closed ==> final(self)@ == old(self)@,
            final(self).wf(),
    {
        if index >= self.views.len() {
            return false;
        }
        let ghost subscribers = self@.registry.subscribers;
        let ghost id = subscribers[index as int];
        proof {
            assert(self@.views[index as int].subscription == Some(id));
            subscribers.index_of_first_ensures(id);
            assert(subscribers.remove_value(id) == subscribers.remove(index as int));
        }
        let view = self.views.remove(index);
        view.close(&mut self.model);
        assert(self@.views =~= old(self)@.views.remove(index as int));
        true
    }

    /// The background side hands over one text. The model and the views are
    /// not touched.
    pub fn forward(&mut self, text: String)
        ensures
            final(self)@ == old(self)@.handed(seq![text@]),
            final(self)@.text == old(self)@.text,
            final(self)@.registry == old(self)@.registry,
            final(self)@.views == old(self)@.views,
    {
        self.handoffs.submit(text);
        assert(old(self)@.pending.push(text@) == old(self)@.pending + seq![text@]);
    }

    /// The background side works through a burst of receive attempts: the
    /// listener decides, and the texts that it forwards are handed over in
    /// the order in which they were received. The model and the views are
    /// not touched. Returns whether the listener's loop goes on.
    pub fn receive(
        &mut self,
        listener: &mut Listener,
        received: Vec<Result<InboundFrame, ReceiveError>>,
    ) -> (goes_on: bool)
        ensures
            final(self)@ == old(self)@.handed(forwarded(old(listener).state(), received@)),
            final(self)@.text == old(self)@.text,
            final(self)@.registry == old(self)@.registry,
            final(self)@.views == old(self)@.views,
            final(listener).interval() == old(listener).interval(),
            final(listener).state() == state_after(old(listener).state(), received@),
            goes_on == (final(listener).state() == ListenerState::Listening),
    {
        listener.pump(received, &mut self.handoffs)
    }

    /// The foreground side applies the oldest pending text, if there is
    /// one: the model takes it and every view is notified. Returns whether
    /// there was one.
    pub fn run_next(&mut self) -> (applied: bool)
        requires
            old(self).wf(),
        ensures
            applied == (old(self)@.pending.len() > 0),
            final(self)@ == if applied {
                old(self)@.applied_one()
            } else {
                old(self)@
            },
            final(self).wf(),
    {
        match self.handoffs.take_next() {
            Some(text) => {
                self.model.publish(text, &mut self.views);
                true
            },
            None => false,
        }
    }

    /// The foreground side applies everything that is pending, oldest
    /// first, and returns how many texts that were.
    pub fn run_pending(&mut self) -> (count: usize)
        requires
            old(self).wf(),
        ensures
            count == old(self)@.pending.len(),
            final(self)@ == old(self)@.applied(),
            final(self)@.pending.len() == 0,
            final(self).wf(),
    {
        let total = self.handoffs.len();
        let mut count: usize = 0;
        while self.handoffs.len() > 0
            invariant
                self.wf(),
                self@.applied() == old(self)@.applied(),
                total == old(self)@.pending.len(),
                count + self@.pending.len() == total,
            decreases self@.pending.len(),
        {
            self.run_next();
            count += 1;
        }
        count
    }

    /// One render step: every view with a pending redraw is drawn once,
    /// however often the redraw was asked for; the others are not drawn.
    pub fn render(&mut self) -> (frames: Vec<Option<String>>)
        ensures
            final(self)@ == old(self)@.drawn(),
            frames.deep_view() == old(self)@.frames(),
    {
        let mut frames: Vec<Option<String>> = Vec::new();
        let mut k: usize = 0;
        while k < self.views.len()
            invariant
                k <= self.views@.len(),
                self.views@.len() == old(self).views@.len(),
                self.model == old(self).model,
                self.handoffs == old(self).handoffs,
                frames@.len() == k,
                forall|j: int| 0 <= j < k ==> (#[trigger] self.views@[j])@ == old(self).views@[j]@.drawn(),
                forall|j: int| k <= j < self.views@.len() ==> (#[trigger] self.views@[j]) == old(self).views@[j],
                forall|j: int|
                    0 <= j < k ==> (#[trigger] frames@[j]).deep_view() == old(self).views@[j]@.frame(),
            decreases self.views.len() - k,
        {
            let frame = self.views[k].redraw();
            frames.push(frame);
            k += 1;
        }
        assert(self@.views =~= old(self)@.drawn().views);
        assert(frames.deep_view() =~= old(self)@.frames());
        frames
    }
}

} // verus!
