//! An observable cell: an ordered registry of subscribers.
//!
//! The cell buffers nothing. A publication reaches exactly the subscribers
//! that are registered at that moment, in the order in which they
//! registered.

use std::marker::PhantomData;
use vstd::prelude::*;

verus! {

/// The handle of one registration. It is neither `Clone` nor `Copy`: handing
/// it back to the cell is the only way to end the registration, and it can
/// be done once.
#[derive(Debug)]
pub struct Subscription {
    id: u64,
}

impl View for Subscription {
    type V = u64;

    closed spec fn view(&self) -> u64 {
        self.id
    }
}

impl Subscription {
    /// The identifier under which the cell lists this registration.
    pub fn id(&self) -> (id: u64)
        ensures
            id == self@,
    {
        self.id
    }
}

/// What a cell is, mathematically: the identifiers of the live
/// registrations, oldest first, and the number of identifiers handed out so
/// far.
pub ghost struct Registry {
    pub subscribers: Seq<u64>,
    pub issued: nat,
}

impl Registry {
    /// Every live identifier was handed out, and none is listed twice.
    pub open spec fn wf(self) -> bool {
        &&& self.subscribers.no_duplicates()
        &&& forall|i: int| 0 <= i < self.subscribers.len() ==> (#[trigger] self.subscribers[i]) < self.issued
    }

    /// The registry after one more registration.
    pub open spec fn subscribed(self) -> Registry {
        Registry { subscribers: self.subscribers.push(self.issued as u64), issued: self.issued + 1 }
    }

    /// Whether `id` was handed out and its registration has ended.
    pub open spec fn ended(self, id: u64) -> bool {
        id < self.issued && !self.subscribers.contains(id)
    }

    /// The registry after the registration `id` has ended. The others keep
    /// their order; an identifier that is not listed changes nothing.
    pub open spec fn unsubscribed(self, id: u64) -> Registry {
        Registry { subscribers: self.subscribers.remove_value(id), issued: self.issued }
    }
}

/// One notification that a publication owes: the subscriber to call, and
/// the event, which the subscriber may read and not change.
pub struct Delivery<'a, E> {
    pub subscriber: u64,
    pub event: &'a E,
}

/// The deliveries that publishing `event` to `subscribers` owes, in order.
pub open spec fn deliveries_of<'a, E>(subscribers: Seq<u64>, event: &'a E) -> Seq<Delivery<'a, E>> {
    Seq::new(subscribers.len(), |i: int| Delivery { subscriber: subscribers[i], event })
}

/// An observable holder of subscribers for events of type `E`.
pub struct EventCell<E> {
    subscribers: Vec<u64>,
    issued: u64,
    _event: PhantomData<E>,
}

impl<E> View for EventCell<E> {
    type V = Registry;

    closed spec fn view(&self) -> Registry {
        Registry { subscribers: self.subscribers@, issued: self.issued as nat }
    }
}

impl<E> EventCell<E> {
    /// The invariant of every cell that this module hands out.
    pub open spec fn wf(&self) -> bool {
        self@.wf()
    }

    /// A cell without subscribers.
    pub fn new() -> (cell: Self)
        ensures
            cell@ == (Registry { subscribers: Seq::empty(), issued: 0 }),
            cell.wf(),
    {
        EventCell { subscribers: Vec::new(), issued: 0, _event: PhantomData }
    }

    /// Registers one more subscriber, behind all the others, and returns the
    /// handle of the registration. Identifiers are never handed out twice.
    pub fn subscribe(&mut self) -> (subscription: Subscription)
        requires
            old(self).wf(),
            old(self)@.issued < u64::MAX,
        ensures
            subscription@ == old(self)@.issued,
            final(self)@ == old(self)@.subscribed(),
            final(self).wf(),
    {
        let id = self.issued;
        self.issued = id + 1;
        self.subscribers.push(id);
        Subscription { id }
    }

    /// Ends a registration. The handle is used up, so the same registration
    /// cannot be ended twice. Returns whether the registration was still
    /// listed.
    pub fn unsubscribe(&mut self, subscription: Subscription) -> (was_listed: bool)
        requires
            old(self).wf(),
        ensures
            was_listed == old(self)@.subscribers.contains(subscription@),
            final(self)@ == old(self)@.unsubscribed(subscription@),
            !final(self)@.subscribers.contains(subscription@),
            final(self).wf(),
    {
        let id = subscription.id;
        let mut i: usize = 0;
        while i < self.subscribers.len()
            invariant
                i <= self.subscribers.len(),
                self@ == old(self)@,
                self.wf(),
                id == subscription@,
                forall|j: int| 0 <= j < i ==> self.subscribers@[j] != id,
            decreases self.subscribers.len() - i,
        {
            if self.subscribers[i] == id {
                proof {
                    self@.subscribers.index_of_first_ensures(id);
                    lemma_removed_is_gone(self@.subscribers, i as int);
                }
                self.subscribers.remove(i);
                return true;
            }
            i += 1;
        }
        proof {
            self@.subscribers.index_of_first_ensures(id);
        }
        false
    }

    /// Publishes `event`: returns one delivery for each subscriber that is
    /// registered now, in the order of registration. The list is a snapshot,
    /// so a registration that begins or ends while the deliveries are being
    /// made does not disturb them. Without subscribers nothing is delivered,
    /// which is no error.
    pub fn publish<'a>(&self, event: &'a E) -> (deliveries: Vec<Delivery<'a, E>>)
        ensures
            deliveries@ == deliveries_of(self@.subscribers, event),
    {
        let mut deliveries: Vec<Delivery<'a, E>> = Vec::new();
        let mut i: usize = 0;
        while i < self.subscribers.len()
            invariant
                i <= self.subscribers.len(),
                deliveries@ == deliveries_of(self@.subscribers.take(i as int), event),
            decreases self.subscribers.len() - i,
        {
            deliveries.push(Delivery { subscriber: self.subscribers[i], event });
            i += 1;
            assert(deliveries@ == deliveries_of(self@.subscribers.take(i as int), event));
        }
        assert(self@.subscribers.take(i as int) == self@.subscribers);
        deliveries
    }

    /// The number of identifiers handed out so far. A cell can register
    /// subscribers as long as this is below `u64::MAX`.
    pub fn issued(&self) -> (issued: u64)
        ensures
            issued == self@.issued,
    {
        self.issued
    }

    /// The number of live registrations.
    pub fn subscriber_count(&self) -> (count: usize)
        ensures
            count == self@.subscribers.len(),
    {
        self.subscribers.len()
    }

    /// Whether the registration behind the handle is still listed.
    pub fn is_subscribed(&self, subscription: &Subscription) -> (listed: bool)
        ensures
            listed == self@.subscribers.contains(subscription@),
    {
        let mut i: usize = 0;
        while i < self.subscribers.len()
            invariant
                i <= self.subscribers.len(),
                forall|j: int| 0 <= j < i ==> self.subscribers@[j] != subscription@,
            decreases self.subscribers.len() - i,
        {
            if self.subscribers[i] == subscription.id {
                return true;
            }
            i += 1;
        }
        false
    }
}

/// Taking an element out of a list without duplicates leaves a list without
/// duplicates that no longer holds the element.
proof fn lemma_removed_is_gone(s: Seq<u64>, i: int)
    requires
        s.no_duplicates(),
        0 <= i < s.len(),
    ensures
        s.remove(i).no_duplicates(),
        !s.remove(i).contains(s[i]),
        forall|x: u64| s.remove(i).contains(x) ==> s.contains(x),
{
    let r = s.remove(i);
    assert forall|a: int, b: int| 0 <= a < r.len() && 0 <= b < r.len() && a != b implies r[a] != r[b] by {
        let a0 = if a < i { a } else { a + 1 };
        let b0 = if b < i { b } else { b + 1 };
        assert(r[a] == s[a0] && r[b] == s[b0]);
    }
    assert forall|x: u64| r.contains(x) implies s.contains(x) && x != s[i] by {
        let a = choose|a: int| 0 <= a < r.len() && r[a] == x;
        let a0 = if a < i { a } else { a + 1 };
        assert(r[a] == s[a0]);
    }
}

/// Publishing to a cell without subscribers delivers nothing.
pub proof fn law_publish_without_subscribers<E>(event: &E)
    ensures
        deliveries_of(Seq::<u64>::empty(), event) == Seq::<Delivery<E>>::empty(),
{
}

/// No subscriber is reached twice by one publication.
pub proof fn law_each_subscriber_is_reached_once<E>(registry: Registry, event: &E, i: int, j: int)
    requires
        registry.wf(),
        0 <= i < j < registry.subscribers.len(),
    ensures
        deliveries_of(registry.subscribers, event)[i].subscriber != deliveries_of(
            registry.subscribers,
            event,
        )[j].subscriber,
{
}

/// Once a registration has ended, it has ended for good: nothing that is
/// published reaches it, and neither a later registration nor the end of
/// another one brings it back.
pub proof fn law_ended_registration_stays_ended<E>(registry: Registry, id: u64, other: u64, event: &E)
    requires
        registry.wf(),
        registry.issued < u64::MAX,
        id < registry.issued,
    ensures
        registry.unsubscribed(id).wf(),
        registry.unsubscribed(id).ended(id),
        registry.ended(id) ==> {
            &&& forall|i: int|
                0 <= i < registry.subscribers.len() ==> (#[trigger] deliveries_of(
                    registry.subscribers,
                    event,
                )[i]).subscriber != id
            &&& registry.subscribed().wf()
            &&& registry.subscribed().ended(id)
            &&& registry.unsubscribed(other).wf()
            &&& registry.unsubscribed(other).ended(id)
        },
{
    lemma_unsubscribed(registry, id);
    lemma_unsubscribed(registry, other);
    if registry.ended(id) {
        let more = registry.subscribed().subscribers;
        assert forall|i: int| 0 <= i < more.len() implies more[i] != id by {
            if i < registry.subscribers.len() {
                assert(more[i] == registry.subscribers[i]);
            }
        }
    }
}

/// Ending a registration keeps the registry well formed, takes the
/// identifier off the list, and puts none on it.
pub proof fn lemma_unsubscribed(registry: Registry, id: u64)
    requires
        registry.wf(),
    ensures
        registry.unsubscribed(id).wf(),
        !registry.unsubscribed(id).subscribers.contains(id),
        forall|x: u64|
            registry.unsubscribed(id).subscribers.contains(x) ==> registry.subscribers.contains(x),
{
    let s = registry.subscribers;
    s.index_of_first_ensures(id);
    match s.index_of_first(id) {
        Some(i) => {
            lemma_removed_is_gone(s, i);
            let r = s.remove(i);
            assert forall|j: int| 0 <= j < r.len() implies (#[trigger] r[j]) < registry.issued by {
                assert(s.contains(r[j]));
            }
        },
        None => {},
    }
}

} // verus!
