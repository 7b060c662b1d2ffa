use http_server_rs::broadcast::BroadcastChannel;

#[test]
fn every_subscriber_receives_the_published_value_once() {
    let mut bus: BroadcastChannel<u32> = BroadcastChannel::new();
    let mut subscriptions = Vec::new();
    for _ in 0..5 {
        subscriptions.push(bus.subscribe().unwrap().into_receiver());
    }
    assert_eq!(bus.subscriber_count(), 5);
    let delivered = bus.send(&7);
    assert_eq!(delivered, vec![true; 5]);
    for subscription in subscriptions.iter_mut() {
        assert_eq!(subscription.try_recv().ok(), Some(7));
        assert_eq!(subscription.try_recv().ok(), None);
    }
}

#[test]
fn publish_without_subscribers_does_nothing() {
    let mut bus: BroadcastChannel<u32> = BroadcastChannel::new();
    assert_eq!(bus.send(&1), Vec::<bool>::new());
    assert_eq!(bus.subscriber_count(), 0);
}

#[test]
fn late_subscriber_misses_earlier_values() {
    let mut bus: BroadcastChannel<u32> = BroadcastChannel::new();
    let mut early = bus.subscribe().unwrap().into_receiver();
    bus.send(&1);
    bus.send(&2);
    let mut late = bus.subscribe().unwrap().into_receiver();
    bus.send(&3);
    assert_eq!(early.try_recv().ok(), Some(1));
    assert_eq!(early.try_recv().ok(), Some(2));
    assert_eq!(early.try_recv().ok(), Some(3));
    assert_eq!(early.try_recv().ok(), None);
    assert_eq!(late.try_recv().ok(), Some(3));
    assert_eq!(late.try_recv().ok(), None);
}

#[test]
fn closed_queue_is_pruned_on_next_publish() {
    let mut bus: BroadcastChannel<String> = BroadcastChannel::new();
    let mut first = bus.subscribe().unwrap().into_receiver();
    let second = bus.subscribe().unwrap();
    let mut third = bus.subscribe().unwrap().into_receiver();
    assert_eq!(second.id(), 1);
    drop(second);
    assert_eq!(bus.subscriber_count(), 3);
    let delivered = bus.send(&"changed".to_string());
    assert_eq!(delivered, vec![true, false, true]);
    assert_eq!(bus.subscriber_count(), 2);
    assert_eq!(first.try_recv().ok(), Some("changed".to_string()));
    assert_eq!(third.try_recv().ok(), Some("changed".to_string()));
    let delivered = bus.send(&"again".to_string());
    assert_eq!(delivered, vec![true, true]);
    assert_eq!(first.try_recv().ok(), Some("again".to_string()));
    assert_eq!(third.try_recv().ok(), Some("again".to_string()));
}

#[test]
fn retain_delivered_keeps_order() {
    let mut bus: BroadcastChannel<u8> = BroadcastChannel::new();
    let mut a = bus.subscribe().unwrap().into_receiver();
    let _b = bus.subscribe().unwrap();
    let mut c = bus.subscribe().unwrap().into_receiver();
    bus.retain_delivered(&vec![true, false, true]);
    assert_eq!(bus.subscriber_count(), 2);
    assert_eq!(bus.send(&9), vec![true, true]);
    assert_eq!(a.try_recv().ok(), Some(9));
    assert_eq!(c.try_recv().ok(), Some(9));
}

#[test]
fn subscription_ids_count_up() {
    let mut bus: BroadcastChannel<u8> = BroadcastChannel::new();
    assert_eq!(bus.subscribe().unwrap().id(), 0);
    assert_eq!(bus.subscribe().unwrap().id(), 1);
    let third = bus.subscribe().unwrap();
    assert_eq!(third.id(), 2);
    let mut receiver = third.into_receiver();
    bus.send(&4);
    assert_eq!(receiver.try_recv().ok(), Some(4));
}
