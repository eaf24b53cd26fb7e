use pubsub_batch::batching::Accumulator;
use pubsub_batch::registry::{serialize_event, PubSub};
use pubsub_batch::PubSubError;

struct EventA(#[allow(dead_code)] i32);
struct EventB;

#[test]
fn below_threshold_nothing_is_flushed() {
    let mut accumulator = Accumulator::new(String::from("topic1"), 5);
    for i in 0..4u8 {
        let flushed = accumulator.enqueue(vec![i]);
        assert!(flushed.is_none());
    }
    assert_eq!(accumulator.buffered_count(), 4);
    assert!(accumulator.is_timer_armed());
    assert!(accumulator.is_running());
}

#[test]
fn threshold_flushes_full_batches_in_arrival_order() {
    let mut accumulator = Accumulator::new(String::from("topic1"), 3);
    let mut batches = Vec::new();
    for i in 0..8u8 {
        if let Some(batch) = accumulator.enqueue(vec![i]) {
            batches.push((i, batch));
        }
    }
    // exactly floor(8 / 3) = 2 immediate flushes, at the 3rd and 6th message
    assert_eq!(batches.len(), 2);
    assert_eq!(batches[0].0, 2);
    assert_eq!(batches[1].0, 5);
    for (which, (_, batch)) in batches.iter().enumerate() {
        assert_eq!(batch.message_count(), 3);
        assert_eq!(batch.topic(), "topic1");
        for k in 0..3 {
            // arrival order is preserved into the batch
            assert_eq!(batch.message(k), &vec![(which * 3 + k) as u8]);
        }
    }
    // the remainder stays buffered
    assert_eq!(accumulator.buffered_count(), 2);
}

#[test]
fn timer_flushes_whatever_is_buffered() {
    // scenario: one message, then 1.5 s of silence — the timeout fires and
    // flushes exactly one batch of size one
    let mut accumulator = Accumulator::new(String::from("topic1"), 5);
    let flushed = accumulator.enqueue(vec![42]);
    assert!(flushed.is_none());
    assert!(accumulator.is_timer_armed());

    let batch = accumulator.timer_fire().expect("the timeout must flush");
    assert_eq!(batch.message_count(), 1);
    assert_eq!(batch.message(0), &vec![42]);
    assert!(!accumulator.is_timer_armed());

    // a timer that fires on an already-empty buffer is suppressed
    assert!(accumulator.timer_fire().is_none());
}

#[test]
fn seven_messages_make_two_full_batches_and_a_timed_single() {
    // scenario: batch_size = 3, timeout 1 s; seven messages back-to-back
    // give two immediate batches of three, and the timeout then flushes one
    // batch holding the seventh message
    let mut accumulator = Accumulator::new(String::from("topic1"), 3);
    let mut immediate = Vec::new();
    for i in 0..7u8 {
        if let Some(batch) = accumulator.enqueue(vec![i]) {
            immediate.push(batch);
        }
    }
    assert_eq!(immediate.len(), 2);
    assert_eq!(immediate[0].message_count(), 3);
    assert_eq!(immediate[1].message_count(), 3);

    let last = accumulator.timer_fire().expect("the timeout must flush");
    assert_eq!(last.message_count(), 1);
    assert_eq!(last.message(0), &vec![6]);
}

#[test]
fn batch_size_one_flushes_every_message() {
    let mut accumulator = Accumulator::new(String::from("t"), 1);
    for i in 0..3u8 {
        let batch = accumulator.enqueue(vec![i]).expect("every message flushes");
        assert_eq!(batch.message_count(), 1);
        assert_eq!(batch.message(0), &vec![i]);
    }
    assert_eq!(accumulator.buffered_count(), 0);
}

#[test]
fn accumulator_shutdown_flushes_the_rest_exactly_once() {
    let mut accumulator = Accumulator::new(String::from("topic1"), 5);
    accumulator.enqueue(vec![1]);
    accumulator.enqueue(vec![2]);

    let last = accumulator.shutdown().expect("a non-empty buffer makes a final batch");
    assert_eq!(last.message_count(), 2);
    assert_eq!(last.message(0), &vec![1]);
    assert_eq!(last.message(1), &vec![2]);
    assert!(!accumulator.is_running());
    assert_eq!(accumulator.buffered_count(), 0);

    // stopping again finds nothing more to flush
    assert!(accumulator.shutdown().is_none());
}

#[test]
fn same_topic_yields_the_same_accumulator() {
    // senders for different event types on one topic share one accumulator:
    // their messages interleave into the same batches
    let mut registry = PubSub::with_config(5, 1000);
    let sender_a = registry.get_or_create_sender::<EventA>(String::from("topic1"));
    let sender_b = registry.get_or_create_sender::<EventB>(String::from("topic1"));
    assert_eq!(sender_a.topic_index(), sender_b.topic_index());
    assert_eq!(registry.topic_count(), 1);

    for i in 0..3 {
        registry.send(&sender_a, EventA(i)).expect("accepted");
    }
    registry.send(&sender_b, EventB).expect("accepted");
    assert_eq!(registry.sink().message_count(), 0);
    // the fifth message, from the other sender, completes the shared batch
    registry.send(&sender_b, EventB).expect("accepted");
    assert_eq!(registry.sink().message_count(), 5);
    assert_eq!(registry.sink().batch_count(), 1);
}

#[test]
fn distinct_topics_get_distinct_accumulators() {
    let mut registry = PubSub::create();
    let sender_a = registry.get_or_create_sender::<EventA>(String::from("A"));
    let sender_b = registry.get_or_create_sender::<EventA>(String::from("B"));
    assert_ne!(sender_a.topic_index(), sender_b.topic_index());
    assert_eq!(registry.topic_count(), 2);
}

#[test]
fn shutdown_flushes_both_topics_and_stops_everything() {
    // scenario: two topics each hold two messages, below the threshold, and
    // an immediate shutdown flushes exactly one final batch of two per topic
    let mut registry = PubSub::with_config(5, 1000);
    let sender_a = registry.get_or_create_sender::<EventA>(String::from("A"));
    let sender_b = registry.get_or_create_sender::<EventB>(String::from("B"));
    registry.send(&sender_a, EventA(1)).expect("accepted");
    registry.send(&sender_a, EventA(2)).expect("accepted");
    registry.send(&sender_b, EventB).expect("accepted");
    registry.send(&sender_b, EventB).expect("accepted");
    assert_eq!(registry.sink().message_count(), 0);

    registry.shutdown_all();

    assert_eq!(registry.sink().message_count(), 4);
    assert_eq!(registry.sink().batch_count(), 2);
    assert!(!registry.sink().is_running());
    assert!(!registry.accumulator(sender_a.topic_index()).is_running());
    assert!(!registry.accumulator(sender_b.topic_index()).is_running());
    assert_eq!(registry.accumulator(sender_a.topic_index()).buffered_count(), 0);
    assert_eq!(registry.accumulator(sender_b.topic_index()).buffered_count(), 0);
}

#[test]
fn sink_counts_every_accepted_send() {
    // no loss and no duplication: after shutdown the sink has counted
    // exactly the accepted sends, across topics and across flush kinds
    let mut registry = PubSub::with_config(3, 1000);
    let sender_a = registry.get_or_create_sender::<EventA>(String::from("A"));
    let sender_b = registry.get_or_create_sender::<EventA>(String::from("B"));
    let mut accepted = 0;
    for i in 0..7 {
        registry.send(&sender_a, EventA(i)).expect("accepted");
        accepted += 1;
    }
    for i in 0..4 {
        registry.send(&sender_b, EventA(i)).expect("accepted");
        accepted += 1;
    }
    registry.shutdown_all();
    assert_eq!(registry.sink().message_count(), accepted);
}

#[test]
fn sends_after_shutdown_fail_and_change_nothing() {
    let mut registry = PubSub::create();
    let sender = registry.get_or_create_sender::<EventA>(String::from("topic1"));
    registry.send(&sender, EventA(1)).expect("accepted");
    registry.shutdown_all();
    let pushed = registry.sink().message_count();

    let refused = registry.send(&sender, EventA(2));
    assert_eq!(refused, Err(PubSubError::SendFailed));
    assert_eq!(registry.sink().message_count(), pushed);

    // a topic created after shutdown refuses sends as well
    let late = registry.get_or_create_sender::<EventB>(String::from("late"));
    assert_eq!(registry.send(&late, EventB), Err(PubSubError::SendFailed));
}

#[test]
fn the_stub_encoding_is_empty_and_deterministic() {
    assert_eq!(serialize_event(&EventA(7)), Vec::<u8>::new());
    assert_eq!(serialize_event(&EventA(7)), serialize_event(&EventA(9)));
}

#[test]
fn empty_topic_names_are_topics_too() {
    let mut registry = PubSub::create();
    let sender_a = registry.get_or_create_sender::<EventA>(String::new());
    let sender_b = registry.get_or_create_sender::<EventA>(String::new());
    assert_eq!(sender_a.topic_index(), sender_b.topic_index());
    assert_eq!(registry.topic_count(), 1);
}
