use torii::broker::{Audience, MemoryBroker, Update};
use torii::subscriptions::managers::GrpcConfig;

#[derive(Debug, Clone, PartialEq)]
struct Msg {
    id: u32,
    content: String,
}

fn msg(id: u32, content: &str) -> Msg {
    Msg { id, content: content.to_string() }
}

#[test]
fn test_subscriber_count_tracks_stream_lifetime() {
    let mut broker: MemoryBroker<u32> = MemoryBroker::new();
    assert_eq!(broker.subscriber_count(), 0);

    let first = broker.subscribe();
    let second = broker.subscribe_optimistic();
    assert_eq!(broker.subscriber_count(), 2);

    broker.unsubscribe(first);
    assert_eq!(broker.subscriber_count(), 1);

    broker.unsubscribe(second);
    assert_eq!(broker.subscriber_count(), 0);
}

#[test]
fn test_publish_and_subscribe() {
    let mut broker = MemoryBroker::new();
    let stream = broker.subscribe();
    let m = msg(1, "Hello World");

    broker.publish(Update::new(m.clone(), false));

    assert_eq!(broker.next(stream), Some(m));
}

#[test]
fn test_subscribe_raw_receives_all_messages() {
    let mut broker = MemoryBroker::new();
    let stream = broker.subscribe_raw();
    let optimistic_msg = msg(1, "Optimistic");
    let non_optimistic_msg = msg(2, "Non-Optimistic");

    broker.publish(Update::new(optimistic_msg.clone(), true));
    broker.publish(Update::new(non_optimistic_msg.clone(), false));

    let update1 = broker.next_raw(stream).unwrap();
    assert!(update1.is_optimistic());
    assert_eq!(update1.inner, optimistic_msg);

    let update2 = broker.next_raw(stream).unwrap();
    assert!(!update2.is_optimistic());
    assert_eq!(update2.inner, non_optimistic_msg);
}

#[test]
fn test_subscribe_filters_optimistic_messages() {
    let mut broker = MemoryBroker::new();
    let stream = broker.subscribe();
    let non_optimistic_msg = msg(2, "Should pass through");

    broker.publish(Update::new(msg(1, "Should be filtered"), true));
    broker.publish(Update::new(non_optimistic_msg.clone(), false));

    assert_eq!(broker.next(stream), Some(non_optimistic_msg));
    assert_eq!(broker.next(stream), None);
}

#[test]
fn test_subscribe_optimistic_only_receives_optimistic() {
    let mut broker = MemoryBroker::new();
    let stream = broker.subscribe_optimistic();
    let optimistic_msg = msg(1, "Optimistic message");

    broker.publish(Update::new(msg(2, "Non-optimistic message"), false));
    broker.publish(Update::new(optimistic_msg.clone(), true));

    assert_eq!(broker.next(stream), Some(optimistic_msg));
    assert_eq!(broker.next(stream), None);
}

#[test]
fn test_multiple_subscribers_receive_same_message() {
    let mut broker = MemoryBroker::new();
    let stream1 = broker.subscribe();
    let stream2 = broker.subscribe();
    let stream3 = broker.subscribe_raw();
    let m = msg(42, "Broadcast message");

    broker.publish(Update::new(m.clone(), false));

    assert_eq!(broker.next(stream1), Some(m.clone()));
    assert_eq!(broker.next(stream2), Some(m.clone()));
    let raw_update = broker.next_raw(stream3).unwrap();
    assert_eq!(raw_update.inner, m);
    assert!(!raw_update.is_optimistic());
}

#[test]
fn test_late_subscriber_misses_early_messages() {
    let mut broker = MemoryBroker::new();
    broker.publish(Update::new(msg(1, "Early message"), false));
    let stream = broker.subscribe();
    let msg2 = msg(2, "Late message");
    broker.publish(Update::new(msg2.clone(), false));

    assert_eq!(broker.next(stream), Some(msg2));
    assert_eq!(broker.next(stream), None);
}

#[test]
fn test_stream_cleanup_on_drop() {
    let mut broker = MemoryBroker::new();
    let m = msg(1, "Test message");
    let dropped = broker.subscribe();
    broker.unsubscribe(dropped);

    let new_stream = broker.subscribe();
    broker.publish(Update::new(m.clone(), false));

    assert_eq!(broker.next(new_stream), Some(m));
}

#[test]
fn test_concurrent_publishing_and_subscribing() {
    let mut broker = MemoryBroker::new();
    let stream = broker.subscribe_raw();
    for i in 0..10 {
        broker.publish(Update::new(msg(i, &format!("Message {}", i)), i % 2 == 0));
    }

    let mut received_messages = Vec::new();
    for _ in 0..10 {
        if let Some(update) = broker.next_raw(stream) {
            received_messages.push((update.inner.id, update.is_optimistic()));
        }
    }

    assert_eq!(received_messages.len(), 10);
    for (id, is_optimistic) in received_messages {
        assert_eq!(is_optimistic, id % 2 == 0);
    }
}

#[test]
fn test_with_subscribers_function() {
    let mut broker: MemoryBroker<u32> = MemoryBroker::new();
    let initial_count = broker.senders.0.len();

    let _stream1 = broker.subscribe();
    let _stream2 = broker.subscribe_raw();

    assert_eq!(broker.senders.0.len(), initial_count + 2);
}

#[test]
fn keys_of_listeners_that_left_are_given_again() {
    let mut broker: MemoryBroker<u32> = MemoryBroker::new();
    let a = broker.subscribe();
    let b = broker.subscribe();
    assert!(a != b);
    broker.unsubscribe(a);
    broker.unsubscribe(77);
    assert_eq!(broker.subscribe_raw(), a);
    assert_eq!(broker.subscriber_count(), 2);
    assert_eq!(broker.next(77), None);
}

#[test]
fn settings_choose_the_audience() {
    let c = GrpcConfig { subscription_buffer_size: 8, optimistic: true };
    assert_eq!(c.audience(), Audience::Optimistic);
    let c = GrpcConfig { subscription_buffer_size: 8, optimistic: false };
    assert_eq!(c.audience(), Audience::Confirmed);
}

#[test]
fn listeners_get_their_kind_in_order() {
    let mut broker: MemoryBroker<u32> = MemoryBroker::new();
    let all = broker.subscribe_raw();
    let confirmed = broker.subscribe();
    let optimistic = broker.subscribe_optimistic();
    for (n, not_confirmed) in [(1, true), (2, false), (3, false), (4, true), (5, false)] {
        broker.publish(Update::new(n, not_confirmed));
    }
    let mut taken: Vec<Vec<u32>> = vec![];
    for key in [all, confirmed, optimistic] {
        let mut got = vec![];
        while let Some(n) = broker.next(key) {
            got.push(n);
        }
        taken.push(got);
    }
    assert_eq!(taken, vec![vec![1, 2, 3, 4, 5], vec![2, 3, 5], vec![1, 4]]);
    assert_eq!(broker.subscriber_count(), 3);
}

#[test]
fn channels_follow_their_keys() {
    let mut broker: MemoryBroker<u32> = MemoryBroker::new();
    let a = broker.subscribe();
    let b = broker.subscribe();
    broker.publish(Update::new(1, false));
    broker.unsubscribe(a);
    // The key is given again, with a channel that holds nothing.
    assert_eq!(broker.subscribe(), a);
    broker.publish(Update::new(2, false));
    assert_eq!(broker.next(a), Some(2));
    assert_eq!(broker.next(b), Some(1));
    assert_eq!(broker.next(b), Some(2));
    assert_eq!(broker.next(a), None);
}
