//! Decoded-audio abstractions: the metadata record attached to a stream, the
//! events a pull-based audio source can yield, and the capability trait that
//! the pipeline consumes.

use vstd::prelude::*;

verus! {

/// Now-playing metadata for one stream. Both fields default to absent and the
/// whole record is replaced whenever the decoder surfaces a comment packet.
#[derive(Debug, Clone, PartialEq)]
pub struct Metadata {
    pub artist: Option<String>,
    pub title: Option<String>,
}

impl Metadata {
    /// The default record: both fields absent.
    pub fn empty() -> (m: Metadata)
        ensures
            m.artist is None,
            m.title is None,
    {
        Metadata { artist: None, title: None }
    }

    /// A field-wise copy whose equality with the source value is known to
    /// the verifier (a derived clone would not be).
    pub fn snapshot(&self) -> (m: Metadata)
        ensures
            m == *self,
    {
        Metadata { artist: clone_opt_string(&self.artist), title: clone_opt_string(&self.title) }
    }
}

/// A copy of an optional string, equal to its source.
pub fn clone_opt_string(o: &Option<String>) -> (r: Option<String>)
    ensures
        r == *o,
{
    match o {
        Some(s) => Some(s.clone()),
        None => None,
    }
}

/// One decoded packet: one vector of samples per channel.
pub type PcmData = Vec<Vec<i16>>;

/// A successful read from an audio source.
pub enum StreamRead {
    /// The stream ended cleanly.
    Eof,
    /// One decoded audio packet.
    Audio(PcmData),
    /// A fresh metadata snapshot surfaced mid-stream.
    Metadata(Metadata),
}

/// A failed read from an audio source.
#[derive(Debug, Clone, Copy, PartialEq, Eq, Structural)]
pub enum StreamError {
    /// The underlying transport broke; terminal for the session.
    IoError,
    /// This packet is unintelligible, but the stream may continue.
    BadPacket,
}

/// A decoded-PCM packet source with metadata events. The Ogg/Vorbis decoder
/// is the one concrete implementation; it lives with the connection handling,
/// outside this crate's verified core, which is why the methods carry no
/// contracts here.
pub trait AudioStream {
    /// Sample rate in Hz.
    fn sample_rate(&self) -> u32;

    /// Channel count; 1 or 2 expected.
    fn channels(&self) -> u8;

    /// Nominal bitrate in bits per second.
    fn bitrate_nominal(&self) -> i32;

    /// Short codec identifier for logging.
    fn codec_name(&self) -> String;

    /// Pulls the next event from the source.
    fn read(&mut self) -> Result<StreamRead, StreamError>;
}

} // verus!
