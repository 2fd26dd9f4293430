//! Scenario tests for the lossy fan-out channel: delivery order, the
//! subscribe window, draining after close, and eviction of full queues.

use rustcast::fanout::{Channel, Receiver};

fn frame(b: u8) -> Vec<u8> {
    vec![b, b, b]
}

#[test]
fn subscriber_sees_only_frames_after_subscribe_in_order() {
    let mut ch: Channel<Vec<u8>> = Channel::new(4);
    let rx1 = ch.subscribe();
    ch.publish(frame(1));
    ch.publish(frame(2));
    let rx2 = ch.subscribe();
    ch.publish(frame(3));
    ch.close();
    assert_eq!(rx1.recv(&mut ch), Some(frame(1)));
    assert_eq!(rx1.recv(&mut ch), Some(frame(2)));
    assert_eq!(rx1.recv(&mut ch), Some(frame(3)));
    assert_eq!(rx1.recv(&mut ch), None);
    assert_eq!(rx2.recv(&mut ch), Some(frame(3)));
    assert_eq!(rx2.recv(&mut ch), None);
}

#[test]
fn recv_after_close_drains_pending_then_reports_end() {
    let mut ch: Channel<Vec<u8>> = Channel::new(8);
    let rx = ch.subscribe();
    ch.publish(frame(10));
    ch.publish(frame(11));
    ch.close();
    assert_eq!(rx.recv(&mut ch), Some(frame(10)));
    assert_eq!(rx.recv(&mut ch), Some(frame(11)));
    assert_eq!(rx.recv(&mut ch), None);
    assert_eq!(rx.recv(&mut ch), None);
}

#[test]
fn subscribe_after_close_reads_end_of_stream() {
    let mut ch: Channel<Vec<u8>> = Channel::new(4);
    ch.publish(frame(1));
    ch.close();
    let rx = ch.subscribe();
    assert_eq!(rx.recv(&mut ch), None);
}

#[test]
fn full_subscriber_is_evicted_on_publish_others_receive_everything() {
    let mut ch: Channel<Vec<u8>> = Channel::new(16);
    let lazy = ch.subscribe();
    let eager = ch.subscribe();
    let mut eager_got: Vec<Vec<u8>> = Vec::new();
    for i in 0..20u8 {
        ch.publish(frame(i));
        if let Some(v) = eager.recv(&mut ch) {
            eager_got.push(v);
        }
    }
    // `lazy` never received; its queue filled at the 16th publish and the
    // 17th evicted it, so its next recv reports end-of-stream.
    assert_eq!(lazy.recv(&mut ch), None);
    assert_eq!(eager_got.len(), 20);
    for i in 0..20u8 {
        assert_eq!(eager_got[i as usize], frame(i));
    }
    // the eager subscriber is still registered: it keeps receiving.
    ch.publish(frame(42));
    assert_eq!(eager.recv(&mut ch), Some(frame(42)));
}

#[test]
fn ready_reflects_queue_and_close_state() {
    let mut ch: Channel<Vec<u8>> = Channel::new(4);
    let rx = ch.subscribe();
    // empty queue on an open channel: a recv would wait
    assert!(!ch.ready(rx.id));
    ch.publish(frame(1));
    assert!(ch.ready(rx.id));
    assert_eq!(rx.recv(&mut ch), Some(frame(1)));
    assert!(!ch.ready(rx.id));
    ch.close();
    // closed: recv reports end-of-stream at once
    assert!(ch.ready(rx.id));
    // unknown handle: recv reports end-of-stream at once
    assert!(ch.ready(12345));
}

#[test]
fn unknown_receiver_reads_end_of_stream() {
    let mut ch: Channel<Vec<u8>> = Channel::new(4);
    let _rx = ch.subscribe();
    let stranger = Receiver { id: 999 };
    assert_eq!(stranger.recv(&mut ch), None);
}

#[test]
fn zero_capacity_channel_evicts_everyone_on_first_publish() {
    let mut ch: Channel<Vec<u8>> = Channel::new(0);
    let rx = ch.subscribe();
    ch.publish(frame(1));
    assert_eq!(rx.recv(&mut ch), None);
}
