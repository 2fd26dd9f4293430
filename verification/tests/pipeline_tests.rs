//! Tests for the per-packet pipeline policy, request parsing, credential
//! extraction, dump paths, cookies, comment metadata and the encoder
//! buffer helpers.

use rustcast::audio::{Metadata, StreamError, StreamRead};
use rustcast::config::{Config, Webhooks};
use rustcast::cookie::Cookies;
use rustcast::hooks::{interpret_stream_start, status_is_success, HookError, StreamStart};
use rustcast::ident::StreamId;
use rustcast::ident::dump_path;
use rustcast::ogg::{comment_metadata, metadata_from_comments, NonSeekStream, VorbisDecoder};
use rustcast::server::{
    extract_request_format, finish_frame, mp3_buffer, password_from_headers, ClaimGuard,
    PacketStep, RequestFormat, Rustcast, Stream,
};

fn must_start(rc: &mut Rustcast, m: &str) -> (ClaimGuard, Stream) {
    match rc.start_stream(m) {
        Ok(v) => v,
        Err(_) => panic!("start_stream refused"),
    }
}

fn must_auth(
    rc: &mut Rustcast,
    g: ClaimGuard,
    s: Stream,
    d: Result<StreamStart, HookError>,
) -> ClaimGuard {
    match rc.authenticate(g, s, d) {
        Ok(g) => g,
        Err(_) => panic!("authenticate refused"),
    }
}

fn test_config() -> Config {
    Config {
        listen: String::from("127.0.0.1:8000"),
        stream_dump: String::from("/tmp/dump-{uuid}.mp3"),
        session_cookie: None,
        webhooks: Webhooks::default(),
    }
}

fn headers(pairs: &[(&str, &str)]) -> Vec<(String, String)> {
    pairs
        .iter()
        .map(|(k, v)| (String::from(*k), String::from(*v)))
        .collect()
}

/// A stand-in encoder for driving the model pipeline in tests.
fn fake_encode(left: &[i16], right: &[i16]) -> Vec<u8> {
    let mut out = Vec::new();
    for s in left {
        out.push(*s as u8);
    }
    for s in right {
        out.push(*s as u8);
    }
    out
}

#[test]
fn decoder_event_policy_end_to_end() {
    // Decoder yields: BadPacket, Audio(x), Metadata(A/T), Audio(y), Eof.
    // Listeners receive exactly [enc(x), enc(y)]; the metadata endpoint
    // reports the comment once the event is processed.
    let mut rc = Rustcast::new(test_config());
    let (guard, stream) = must_start(&mut rc, "/live");
    let guard = must_auth(&mut rc, guard, stream, Ok(StreamStart::Allow));
    let rx = rc.subscribe("/live").unwrap();

    let x: Vec<Vec<i16>> = vec![vec![1, 2], vec![3, 4]];
    let y: Vec<Vec<i16>> = vec![vec![5], vec![6]];
    let meta = Metadata {
        artist: Some(String::from("A")),
        title: Some(String::from("T")),
    };
    let events: Vec<Result<StreamRead, StreamError>> = vec![
        Err(StreamError::BadPacket),
        Ok(StreamRead::Audio(x)),
        Ok(StreamRead::Metadata(meta)),
        Ok(StreamRead::Audio(y)),
        Ok(StreamRead::Eof),
    ];

    let mut finished = false;
    for event in events {
        match rc.source_packet(&guard, event, 2) {
            PacketStep::Continue => {}
            PacketStep::Abort => panic!("no abort expected"),
            PacketStep::Finish => {
                finished = true;
                break;
            }
            PacketStep::Encode(left, right) => {
                let frame = fake_encode(&left, &right);
                rc.publish_frame(&guard, frame);
            }
        }
    }
    assert!(finished);
    assert_eq!(
        rc.now_playing("/live"),
        Some(Metadata {
            artist: Some(String::from("A")),
            title: Some(String::from("T")),
        })
    );
    let mut ended = rc.release(guard).unwrap();
    assert_eq!(rx.recv(&mut ended.channel), Some(vec![1, 2, 3, 4]));
    assert_eq!(rx.recv(&mut ended.channel), Some(vec![5, 6]));
    assert_eq!(rx.recv(&mut ended.channel), None);
}

#[test]
fn malformed_frame_aborts_pipeline() {
    let mut rc = Rustcast::new(test_config());
    let (guard, stream) = must_start(&mut rc, "/live");
    let guard = must_auth(&mut rc, guard, stream, Ok(StreamStart::Allow));
    let bad: Vec<Vec<i16>> = vec![vec![1]];
    let step = rc.source_packet(&guard, Ok(StreamRead::Audio(bad)), 2);
    assert!(matches!(step, PacketStep::Abort));
}

#[test]
fn mono_packet_is_duplicated_to_both_encoder_inputs() {
    let mut rc = Rustcast::new(test_config());
    let (guard, stream) = must_start(&mut rc, "/live");
    let guard = must_auth(&mut rc, guard, stream, Ok(StreamStart::Allow));
    let mono: Vec<Vec<i16>> = vec![vec![7, 8, 9]];
    match rc.source_packet(&guard, Ok(StreamRead::Audio(mono)), 1) {
        PacketStep::Encode(left, right) => {
            assert_eq!(left, vec![7, 8, 9]);
            assert_eq!(right, vec![7, 8, 9]);
        }
        _ => panic!("expected an encode step"),
    }
}

#[test]
fn io_error_finishes_and_bad_packet_continues() {
    let mut rc = Rustcast::new(test_config());
    let (guard, stream) = must_start(&mut rc, "/live");
    let guard = must_auth(&mut rc, guard, stream, Ok(StreamStart::Allow));
    assert!(matches!(
        rc.source_packet(&guard, Err(StreamError::BadPacket), 2),
        PacketStep::Continue
    ));
    assert!(matches!(
        rc.source_packet(&guard, Err(StreamError::IoError), 2),
        PacketStep::Finish
    ));
}

#[test]
fn request_format_strips_known_extensions() {
    let (f, m) = extract_request_format("/foo.mp3");
    assert_eq!(f, RequestFormat::Mp3);
    assert_eq!(m, "/foo");
    let (f, m) = extract_request_format("/foo.json");
    assert_eq!(f, RequestFormat::Json);
    assert_eq!(m, "/foo");
    let (f, m) = extract_request_format("/foo");
    assert_eq!(f, RequestFormat::Mp3);
    assert_eq!(m, "/foo");
}

#[test]
fn dump_path_substitutes_every_uuid_marker() {
    let id = StreamId {
        bytes: [
            0xde, 0xad, 0xbe, 0xef, 0x00, 0x01, 0x02, 0x03, 0x04, 0x05, 0x06, 0x07, 0x08, 0x09,
            0x0a, 0x0b,
        ],
    };
    assert_eq!(id.hyphenated(), "deadbeef-0001-0203-0405-060708090a0b");
    assert_eq!(
        dump_path("/tmp/dump-{uuid}.mp3", &id),
        "/tmp/dump-deadbeef-0001-0203-0405-060708090a0b.mp3"
    );
    assert_eq!(
        dump_path("{uuid}/{uuid}", &id),
        "deadbeef-0001-0203-0405-060708090a0b/deadbeef-0001-0203-0405-060708090a0b"
    );
    // nothing else is substituted
    assert_eq!(dump_path("/plain/path.mp3", &id), "/plain/path.mp3");
    assert_eq!(dump_path("/half-{uuid", &id), "/half-{uuid");
}

#[test]
fn basic_auth_password_is_extracted() {
    // "dXNlcjpwYXNz" is base64 for "user:pass".
    let hs = headers(&[("Authorization", "Basic dXNlcjpwYXNz")]);
    assert_eq!(password_from_headers(&hs), Some(String::from("pass")));
}

#[test]
fn basic_auth_edge_cases() {
    // malformed base64 yields no password
    let hs = headers(&[("Authorization", "Basic !!!notbase64")]);
    assert_eq!(password_from_headers(&hs), None);
    // absent header yields no password
    let hs = headers(&[("Accept", "*/*")]);
    assert_eq!(password_from_headers(&hs), None);
    // a non-Basic scheme is ignored
    let hs = headers(&[("Authorization", "Bearer dXNlcjpwYXNz")]);
    assert_eq!(password_from_headers(&hs), None);
    // header names match regardless of ASCII case
    let hs = headers(&[("authorization", "Basic dXNlcjpwYXNz")]);
    assert_eq!(password_from_headers(&hs), Some(String::from("pass")));
    // "dXNlcjpwYTpzcw==" is "user:pa:ss": everything after the first colon
    let hs = headers(&[("Authorization", "Basic dXNlcjpwYTpzcw==")]);
    assert_eq!(password_from_headers(&hs), Some(String::from("pa:ss")));
    // "dXNlcg==" is "user": no colon, no password
    let hs = headers(&[("Authorization", "Basic dXNlcg==")]);
    assert_eq!(password_from_headers(&hs), None);
    // "//4=" decodes to bytes that are not UTF-8
    let hs = headers(&[("Authorization", "Basic //4=")]);
    assert_eq!(password_from_headers(&hs), None);
}

#[test]
fn cookies_parse_and_lookup() {
    let c = Cookies::new("a=1; b=2; c=3");
    assert_eq!(c.lookup("a"), Some("1"));
    assert_eq!(c.lookup("b"), Some("2"));
    assert_eq!(c.lookup("c"), Some("3"));
    assert_eq!(c.lookup("d"), None);
    // iteration stops at the first segment without '='
    let c = Cookies::new("junk; a=1");
    assert_eq!(c.lookup("a"), None);
    // the name is trimmed of leading whitespace, the value is not
    let c = Cookies::new("a=1; b= 2");
    assert_eq!(c.lookup("b"), Some(" 2"));
    let mut it = Cookies::new("x=9;y=8").iter();
    assert_eq!(it.next(), Some(("x", "9")));
    assert_eq!(it.next(), Some(("y", "8")));
    assert_eq!(it.next(), None);
}

#[test]
fn comment_metadata_takes_first_occurrence_case_sensitively() {
    let comments = vec![
        (String::from("TITLE"), String::from("T1")),
        (String::from("artist"), String::from("ignored")),
        (String::from("ARTIST"), String::from("A1")),
        (String::from("TITLE"), String::from("T2")),
        (String::from("OTHER"), String::from("x")),
    ];
    let m = metadata_from_comments(comments);
    assert_eq!(m.artist, Some(String::from("A1")));
    assert_eq!(m.title, Some(String::from("T1")));

    let m = metadata_from_comments(Vec::new());
    assert_eq!(m.artist, None);
    assert_eq!(m.title, None);
}

#[test]
fn encoder_buffer_sizing_and_truncation() {
    let buf = mp3_buffer(100);
    assert_eq!(buf.len(), 100 * 5 / 4 + 7200);
    assert!(buf.iter().all(|b| *b == 0));
    let frame = finish_frame(vec![9, 8, 7, 6, 5], 3);
    assert_eq!(frame, vec![9, 8, 7]);
}

#[test]
fn hook_interpretation() {
    assert!(matches!(interpret_stream_start(Ok(true)), Ok(StreamStart::Allow)));
    assert!(matches!(
        interpret_stream_start(Ok(false)),
        Ok(StreamStart::Reject)
    ));
    assert!(matches!(
        interpret_stream_start(Err(HookError::Status(503))),
        Err(HookError::Status(503))
    ));
    assert!(status_is_success(200));
    assert!(status_is_success(299));
    assert!(!status_is_success(199));
    assert!(!status_is_success(300));
    assert!(!status_is_success(404));
}

#[test]
fn webhooks_default_allows_everything() {
    let w = Webhooks::default();
    assert!(w.stream_start.is_none());
    assert!(w.stream_end.is_none());
    assert!(w.listener_start.is_none());
    assert!(w.listener_end.is_none());
}

#[test]
fn non_seek_stream_wraps_its_source() {
    let ns = NonSeekStream::new(vec![1u8, 2, 3]);
    assert_eq!(ns.stream, vec![1u8, 2, 3]);
}

/// Builds a Vorbis comment header packet: type byte 3, the codec marker,
/// an empty vendor string, the given entries, the framing bit.
fn comment_packet(entries: &[&str]) -> Vec<u8> {
    let mut p = vec![3u8];
    p.extend_from_slice(b"vorbis");
    p.extend_from_slice(&0u32.to_le_bytes());
    p.extend_from_slice(&(entries.len() as u32).to_le_bytes());
    for e in entries {
        p.extend_from_slice(&(e.len() as u32).to_le_bytes());
        p.extend_from_slice(e.as_bytes());
    }
    p.push(1);
    p
}

#[test]
fn vorbis_comment_packet_parses_to_metadata() {
    let p = comment_packet(&["ARTIST=A", "TITLE=T", "ALBUM=ignored"]);
    let m = comment_metadata(&p).unwrap();
    assert_eq!(m.artist, Some(String::from("A")));
    assert_eq!(m.title, Some(String::from("T")));
    // a packet that is no comment header parses to nothing
    assert!(comment_metadata(&vec![0u8; 8]).is_none());
}

#[test]
fn vorbis_decoder_rejects_garbage_headers() {
    let ident = vec![0u8; 16];
    let setup = vec![0u8; 16];
    assert!(VorbisDecoder::new(&ident, &setup).is_none());
}

#[test]
fn log_lines_do_not_panic() {
    let log = rustcast::log::Log::new();
    log.info("informational line");
    log.error("error line");
}
