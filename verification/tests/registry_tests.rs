//! Scenario tests for the registry lifecycle and the source session around
//! it: the Starting sentinel, conflicts, hook answers and cleanup.

use rustcast::config::{Config, Webhooks};
use rustcast::hooks::{HookError, StreamStart};
use rustcast::server::{
    response_status, ClaimGuard, Rustcast, StartStreamError, Stream, StreamEntry,
};

fn must_start(rc: &mut Rustcast, m: &str) -> (ClaimGuard, Stream) {
    match rc.start_stream(m) {
        Ok(v) => v,
        Err(_) => panic!("start_stream refused"),
    }
}

fn must_auth(
    rc: &mut Rustcast,
    g: ClaimGuard,
    s: Stream,
    d: Result<StreamStart, HookError>,
) -> ClaimGuard {
    match rc.authenticate(g, s, d) {
        Ok(g) => g,
        Err(_) => panic!("authenticate refused"),
    }
}

fn test_config() -> Config {
    Config {
        listen: String::from("127.0.0.1:8000"),
        stream_dump: String::from("/tmp/dump-{uuid}.mp3"),
        session_cookie: None,
        webhooks: Webhooks::default(),
    }
}

#[test]
fn listener_subscribed_midstream_gets_later_frames_then_end() {
    let mut rc = Rustcast::new(test_config());
    let (guard, stream) = must_start(&mut rc, "/live");
    let guard = must_auth(&mut rc, guard, stream, Ok(StreamStart::Allow));
    rc.publish_frame(&guard, vec![0xa0]);
    rc.publish_frame(&guard, vec![0xa1]);
    let rx = rc.subscribe("/live").unwrap();
    rc.publish_frame(&guard, vec![0xa2]);
    let mut ended = rc.release(guard).unwrap();
    assert_eq!(rx.recv(&mut ended.channel), Some(vec![0xa2]));
    assert_eq!(rx.recv(&mut ended.channel), None);
}

#[test]
fn second_source_gets_conflict_and_first_is_unaffected() {
    let mut rc = Rustcast::new(test_config());
    let (guard, stream) = must_start(&mut rc, "/live");
    let guard = must_auth(&mut rc, guard, stream, Ok(StreamStart::Allow));
    let rx = rc.subscribe("/live").unwrap();
    rc.publish_frame(&guard, vec![1]);

    let err = match rc.start_stream("/live") {
        Err(e) => e,
        Ok(_) => panic!("conflict expected"),
    };
    assert_eq!(err, StartStreamError::AlreadyLive);
    assert_eq!(response_status(&err), 409);

    // the live source keeps publishing; its subscriber sees no gap.
    rc.publish_frame(&guard, vec![2]);
    assert_eq!(rc.recv("/live", &rx), Some(vec![1]));
    assert_eq!(rc.recv("/live", &rx), Some(vec![2]));
}

#[test]
fn rejected_source_cleans_up_and_mountpoint_is_immediately_reclaimable() {
    let mut rc = Rustcast::new(test_config());
    let (guard, stream) = must_start(&mut rc, "/same");
    let err = match rc.authenticate(guard, stream, Ok(StreamStart::Reject)) {
        Err(e) => e,
        Ok(_) => panic!("rejection expected"),
    };
    assert_eq!(err, StartStreamError::Rejected);
    assert_eq!(response_status(&err), 403);

    // the registry entry is gone: a new claim on the same path succeeds.
    let (guard, stream) = must_start(&mut rc, "/same");
    let guard = must_auth(&mut rc, guard, stream, Ok(StreamStart::Allow));
    rc.release(guard);
}

#[test]
fn hook_transport_failure_cleans_up_and_maps_to_500() {
    let mut rc = Rustcast::new(test_config());
    let (guard, stream) = must_start(&mut rc, "/hooked");
    let err = match rc.authenticate(guard, stream, Err(HookError::Transport)) {
        Err(e) => e,
        Ok(_) => panic!("hook failure expected"),
    };
    assert_eq!(err, StartStreamError::Hook(HookError::Transport));
    assert_eq!(response_status(&err), 500);
    assert!(rc.start_stream("/hooked").is_ok());
}

#[test]
fn starting_entry_is_invisible_to_listeners() {
    let mut rc = Rustcast::new(test_config());
    let (guard, stream) = must_start(&mut rc, "/pending");
    // between claim and promote the entry exists but must read as absent.
    assert!(matches!(
        rc.get_stream("/pending"),
        Some(StreamEntry::Starting)
    ));
    assert!(rc.lookup("/pending").is_none());
    assert!(rc.subscribe("/pending").is_none());
    assert!(rc.now_playing("/pending").is_none());

    let _guard = must_auth(&mut rc, guard, stream, Ok(StreamStart::Allow));
    assert!(rc.lookup("/pending").is_some());
}

#[test]
fn absent_mountpoint_reads_absent_everywhere() {
    let mut rc = Rustcast::new(test_config());
    assert!(rc.get_stream("/nope").is_none());
    assert!(rc.lookup("/nope").is_none());
    assert!(rc.subscribe("/nope").is_none());
    assert!(rc.now_playing("/nope").is_none());
}

#[test]
fn released_stream_signals_end_to_all_subscribers() {
    let mut rc = Rustcast::new(test_config());
    let (guard, stream) = must_start(&mut rc, "/live");
    let guard = must_auth(&mut rc, guard, stream, Ok(StreamStart::Allow));
    let rx1 = rc.subscribe("/live").unwrap();
    let rx2 = rc.subscribe("/live").unwrap();
    let mut ended = rc.release(guard).unwrap();
    assert!(ended.channel.closed);
    assert_eq!(rx1.recv(&mut ended.channel), None);
    assert_eq!(rx2.recv(&mut ended.channel), None);
}

#[test]
fn recv_readiness_tracks_pending_frames() {
    let mut rc = Rustcast::new(test_config());
    let (guard, stream) = must_start(&mut rc, "/live");
    let guard = must_auth(&mut rc, guard, stream, Ok(StreamStart::Allow));
    let rx = rc.subscribe("/live").unwrap();
    // nothing pending on a live stream: a recv would wait
    assert!(!rc.recv_ready_now("/live", &rx));
    rc.publish_frame(&guard, vec![5]);
    assert!(rc.recv_ready_now("/live", &rx));
    assert_eq!(rc.recv("/live", &rx), Some(vec![5]));
    assert!(!rc.recv_ready_now("/live", &rx));
    // a released mountpoint reads end-of-stream, so recv is always ready
    rc.release(guard);
    assert!(rc.recv_ready_now("/live", &rx));
    assert_eq!(rc.recv("/live", &rx), None);
}

#[test]
fn stream_ids_are_distinct_across_sessions() {
    let mut rc = Rustcast::new(test_config());
    let (g1, s1) = must_start(&mut rc, "/one");
    let (g2, s2) = must_start(&mut rc, "/two");
    assert_ne!(s1.id.hyphenated(), s2.id.hyphenated());
    let g1 = must_auth(&mut rc, g1, s1, Ok(StreamStart::Allow));
    let g2 = must_auth(&mut rc, g2, s2, Ok(StreamStart::Allow));
    rc.release(g1);
    rc.release(g2);
}
