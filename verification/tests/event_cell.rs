use chat::event_cell::EventCell;

#[test]
fn publish_without_subscribers_delivers_nothing() {
    let cell: EventCell<String> = EventCell::new();
    let event = String::from("x");
    let deliveries = cell.publish(&event);
    assert!(deliveries.is_empty());
    assert_eq!(cell.subscriber_count(), 0);
    assert_eq!(event, "x");
}

#[test]
fn subscribers_are_reached_in_registration_order() {
    let mut cell: EventCell<u32> = EventCell::new();
    let first = cell.subscribe();
    let second = cell.subscribe();
    let third = cell.subscribe();
    assert_eq!((first.id(), second.id(), third.id()), (0, 1, 2));
    assert_eq!(cell.issued(), 3);
    let event: u32 = 7;
    let deliveries = cell.publish(&event);
    let reached: Vec<u64> = deliveries.iter().map(|d| d.subscriber).collect();
    assert_eq!(reached, vec![0, 1, 2]);
    assert!(deliveries.iter().all(|d| *d.event == 7));
}

#[test]
fn a_subscription_sees_only_later_publications() {
    let mut cell: EventCell<u32> = EventCell::new();
    let early: u32 = 1;
    assert!(cell.publish(&early).is_empty());
    let subscription = cell.subscribe();
    let late: u32 = 2;
    let deliveries = cell.publish(&late);
    assert_eq!(deliveries.len(), 1);
    assert_eq!(deliveries[0].subscriber, subscription.id());
    assert_eq!(*deliveries[0].event, 2);
}

#[test]
fn unsubscribe_ends_that_registration_and_no_other() {
    let mut cell: EventCell<u32> = EventCell::new();
    let first = cell.subscribe();
    let second = cell.subscribe();
    let third = cell.subscribe();
    assert!(cell.is_subscribed(&second));
    assert!(cell.unsubscribe(second));
    assert_eq!(cell.subscriber_count(), 2);
    let event: u32 = 0;
    let reached: Vec<u64> = cell.publish(&event).iter().map(|d| d.subscriber).collect();
    assert_eq!(reached, vec![first.id(), third.id()]);
}

#[test]
fn an_ended_registration_is_never_reached_again() {
    let mut cell: EventCell<u32> = EventCell::new();
    let gone = cell.subscribe();
    let gone_id = gone.id();
    assert!(cell.unsubscribe(gone));
    let event: u32 = 3;
    assert!(cell.publish(&event).is_empty());
    let next = cell.subscribe();
    assert_ne!(next.id(), gone_id);
    assert_eq!(cell.issued(), 2);
    let reached: Vec<u64> = cell.publish(&event).iter().map(|d| d.subscriber).collect();
    assert_eq!(reached, vec![next.id()]);
    assert!(cell.unsubscribe(next));
    assert!(cell.publish(&event).is_empty());
}

#[test]
fn a_snapshot_is_not_disturbed_by_later_registrations() {
    let mut cell: EventCell<u32> = EventCell::new();
    let first = cell.subscribe();
    let event: u32 = 5;
    let reached: Vec<u64> = cell.publish(&event).iter().map(|d| d.subscriber).collect();
    let second = cell.subscribe();
    assert!(cell.unsubscribe(first));
    assert_eq!(reached, vec![0]);
    let now: Vec<u64> = cell.publish(&event).iter().map(|d| d.subscriber).collect();
    assert_eq!(now, vec![second.id()]);
}
