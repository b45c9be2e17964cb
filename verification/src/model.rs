//! The model: the text of the latest message, and the views that follow it.

use crate::chat::Chat;
use crate::chat::ChatState;
use crate::event_cell::EventCell;
use crate::event_cell::Registry;
use crate::event_cell::Subscription;
use vstd::prelude::*;

verus! {

/// What a model is, mathematically: the latest text, if any message has
/// arrived, and the registry of its subscribers.
pub ghost struct ModelState {
    pub text: Option<Seq<char>>,
    pub registry: Registry,
}

/// The views after `text` was published to the subscribers `subscribers`:
/// those that are subscribed hold the text and are due a redraw, the others
/// are as they were.
pub open spec fn published(views: Seq<ChatState>, subscribers: Seq<u64>, text: Seq<char>) -> Seq<
    ChatState,
> {
    Seq::new(views.len(), |k: int| views[k].delivered(subscribers, text))
}

/// The states of a list of views.
pub open spec fn states(views: Seq<Chat>) -> Seq<ChatState> {
    Seq::new(views.len(), |k: int| views[k]@)
}

/// The observable state of the chat. Only `publish` changes its text.
pub struct Model {
    text: Option<String>,
    cell: EventCell<String>,
}

impl View for Model {
    type V = ModelState;

    closed spec fn view(&self) -> ModelState {
        ModelState {
            text: match self.text {
                Some(t) => Some(t@),
                None => None,
            },
            registry: self.cell@,
        }
    }
}

impl Model {
    /// The invariant of every model that this module hands out.
    pub open spec fn wf(&self) -> bool {
        self@.registry.wf()
    }

    /// A model that has seen no message and has no subscriber.
    pub fn new() -> (model: Model)
        ensures
            model@ == (ModelState { text: None, registry: Registry { subscribers: Seq::empty(), issued: 0 } }),
            model.wf(),
    {
        Model { text: None, cell: EventCell::new() }
    }

    /// The text of the latest message, if one has arrived. Reading changes
    /// nothing.
    pub fn current_text(&self) -> (text: Option<&String>)
        ensures
            match text {
                Some(t) => self@.text == Some(t@),
                None => self@.text.is_none(),
            },
    {
        self.text.as_ref()
    }

    /// The number of subscriptions handed out so far. A model can take
    /// subscribers as long as this is below `u64::MAX`.
    pub fn issued(&self) -> (issued: u64)
        ensures
            issued == self@.registry.issued,
    {
        self.cell.issued()
    }

    /// The number of subscribers.
    pub fn subscriber_count(&self) -> (count: usize)
        ensures
            count == self@.registry.subscribers.len(),
    {
        self.cell.subscriber_count()
    }

    /// Registers one more subscriber, behind the others.
    pub fn subscribe(&mut self) -> (subscription: Subscription)
        requires
            old(self).wf(),
            old(self)@.registry.issued < u64::MAX,
        ensures
            subscription@ == old(self)@.registry.issued,
            final(self)@ == (ModelState { registry: old(self)@.registry.subscribed(), ..old(self)@ }),
            final(self).wf(),
    {
        self.cell.subscribe()
    }

    /// Ends a registration; returns whether it was still listed.
    pub fn unsubscribe(&mut self, subscription: Subscription) -> (was_listed: bool)
        requires
            old(self).wf(),
        ensures
            was_listed == old(self)@.registry.subscribers.contains(subscription@),
            final(self)@ == (ModelState {
                registry: old(self)@.registry.unsubscribed(subscription@),
                ..old(self)@
            }),
            !final(self)@.registry.subscribers.contains(subscription@),
            final(self).wf(),
    {
        self.cell.unsubscribe(subscription)
    }

    /// Publishes a received text: the model takes it as its current text and
    /// every subscribed view among `views` is notified of it, in the order of
    /// registration. A caller sees either the state before or the state
    /// after, never one in between. Views that are not subscribed to this
    /// model are left alone; with no subscriber at all only the model's text
    /// changes.
    pub fn publish(&mut self, text: String, views: &mut Vec<Chat>)
        requires
            old(self).wf(),
        ensures
            final(self)@ == (ModelState { text: Some(text@), ..old(self)@ }),
            final(self).wf(),
            states(final(views)@) == published(states(old(views)@), old(self)@.registry.subscribers, text@),
    {
        let ghost subscribers = self@.registry.subscribers;
        let deliveries = self.cell.publish(&text);
        let mut d: usize = 0;
        while d < deliveries.len()
            invariant
                d <= deliveries.len(),
                deliveries@ == crate::event_cell::deliveries_of(subscribers, &text),
                views@.len() == old(views)@.len(),
                forall|k: int|
                    0 <= k < views@.len() ==> (#[trigger] views@[k])@ == old(views)@[k]@.delivered(
                        subscribers.take(d as int),
                        text@,
                    ),
            decreases deliveries.len() - d,
        {
            let ghost before = views@;
            let mut k: usize = 0;
            while k < views.len()
                invariant
                    d < deliveries.len(),
                    deliveries@ == crate::event_cell::deliveries_of(subscribers, &text),
                    k <= views@.len(),
                    views@.len() == old(views)@.len(),
                    before.len() == views@.len(),
                    forall|j: int|
                        0 <= j < before.len() ==> (#[trigger] before[j])@ == old(views)@[j]@.delivered(
                            subscribers.take(d as int),
                            text@,
                        ),
                    forall|j: int|
                        0 <= j < k ==> (#[trigger] views@[j])@ == old(views)@[j]@.delivered(
                            subscribers.take(d as int + 1),
                            text@,
                        ),
                    forall|j: int| k <= j < views@.len() ==> (#[trigger] views@[j]) == before[j],
                decreases views.len() - k,
            {
                proof {
                    lemma_take_one_more(subscribers, d as int);
                    assert(before[k as int]@ == old(views)@[k as int]@.delivered(
                        subscribers.take(d as int),
                        text@,
                    ));
                }
                if views[k].subscribed_as(deliveries[d].subscriber) {
                    views[k].notify(deliveries[d].event);
                }
                k += 1;
            }
            d += 1;
        }
        assert(subscribers.take(d as int) == subscribers);
        self.text = Some(text);
        assert(states(views@) =~= published(states(old(views)@), subscribers, text@));
    }
}

/// What is published changes no view whose registration is not listed; with no
/// subscriber at all it changes no view.
pub proof fn law_unlisted_view_is_left_alone(
    views: Seq<ChatState>,
    subscribers: Seq<u64>,
    text: Seq<char>,
)
    ensures
        published(views, subscribers, text).len() == views.len(),
        forall|k: int|
            0 <= k < views.len() && !views[k].listens(subscribers) ==> (#[trigger] published(
                views,
                subscribers,
                text,
            )[k]) == views[k],
        subscribers.len() == 0 ==> published(views, subscribers, text) == views,
{
    if subscribers.len() == 0 {
        assert(published(views, subscribers, text) =~= views);
    }
}

/// One more element of a list is in reach of whatever the shorter prefix
/// reached, and of its own value.
proof fn lemma_take_one_more(s: Seq<u64>, d: int)
    requires
        0 <= d < s.len(),
    ensures
        forall|id: u64| s.take(d + 1).contains(id) <==> (s.take(d).contains(id) || s[d] == id),
{
    let longer = s.take(d + 1);
    let shorter = s.take(d);
    assert forall|id: u64| longer.contains(id) <==> (shorter.contains(id) || s[d] == id) by {
        if longer.contains(id) {
            let i = choose|i: int| 0 <= i < longer.len() && longer[i] == id;
            if i < d {
                assert(shorter[i] == id);
            }
        }
        if shorter.contains(id) {
            let i = choose|i: int| 0 <= i < shorter.len() && shorter[i] == id;
            assert(longer[i] == id);
        }
        if s[d] == id {
            assert(longer[d] == id);
        }
    }
}

} // verus!
