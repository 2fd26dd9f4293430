//! The Ogg/Vorbis decode step. Pulling packets off the connection happens at
//! the application edge; this module holds the decoder state, the calls into
//! the Vorbis decoder, and the verified classification of each decoded
//! packet into the pipeline's events — in particular the extraction of
//! `ARTIST` and `TITLE` from a mid-stream comment packet.

use crate::audio::{Metadata, StreamError, StreamRead};
use crate::text::str_eq;
use vstd::prelude::*;

verus! {

/// A byte source marked as never seekable: live Vorbis decode never needs
/// to seek, and an attempt to would indicate a bug in the decoder pathway.
/// The application's read adapter wraps this and refuses seeks.
pub struct NonSeekStream<T> {
    /// The wrapped byte source.
    pub stream: T,
}

impl<T> NonSeekStream<T> {
    /// Wraps a byte source.
    pub fn new(stream: T) -> (r: NonSeekStream<T>)
        ensures
            r.stream == stream,
    {
        NonSeekStream { stream }
    }
}

#[verifier::external_type_specification]
#[verifier::external_body]
pub struct ExIdentHeader(lewton::header::IdentHeader);

#[verifier::external_type_specification]
#[verifier::external_body]
pub struct ExSetupHeader(lewton::header::SetupHeader);

#[verifier::external_type_specification]
#[verifier::external_body]
pub struct ExPreviousWindowRight(lewton::audio::PreviousWindowRight);

/// Relies on `lewton::audio::PreviousWindowRight::new`: the empty
/// overlap-add state a fresh stream starts from.
pub assume_specification[ lewton::audio::PreviousWindowRight::new ]() -> lewton::audio::PreviousWindowRight;

/// The parsed identification header together with plain copies of the
/// fields the pipeline reads from it.
pub struct IdentInfo {
    /// The parsed header itself.
    pub header: lewton::header::IdentHeader,
    /// Channel count.
    pub channels: u8,
    /// Sample rate in Hz.
    pub sample_rate: u32,
    /// Nominal bitrate in bits per second.
    pub bitrate_nominal: i32,
    /// Smaller block size exponent.
    pub blocksize_0: u8,
    /// Larger block size exponent.
    pub blocksize_1: u8,
}

/// The plain fields of a Vorbis identification header, as a function of the
/// packet bytes alone: channel count, sample rate, nominal bitrate, and the
/// smaller and larger block size exponents; absent for a packet that is no
/// such header.
pub uninterp spec fn ident_fields_of(packet: Seq<u8>) -> Option<(u8, u32, i32, u8, u8)>;

/// Whether the bytes parse as a Vorbis setup header for a stream with the
/// given channel count and block sizes — a function of these inputs alone.
pub uninterp spec fn setup_header_ok(
    packet: Seq<u8>,
    channels: u8,
    blocksize_0: u8,
    blocksize_1: u8,
) -> bool;

/// Relies on `lewton::header::read_header_ident` to parse the Vorbis
/// identification packet; the result depends on the bytes alone and is
/// named `ident_fields_of`. The plain fields are copies of the header's own
/// public fields; a packet that is no identification header is absent. The
/// bounds are the parser's own: it refuses a header with zero channels, a
/// zero sample rate, or block size exponents outside 6..=13 or misordered.
#[verifier::external_body]
fn parse_ident_packet(packet: &Vec<u8>) -> (r: Option<IdentInfo>)
    ensures
        match r {
            Some(info) => ({
                &&& ident_fields_of(packet@) == Some(
                    (
                        info.channels,
                        info.sample_rate,
                        info.bitrate_nominal,
                        info.blocksize_0,
                        info.blocksize_1,
                    ),
                )
                &&& 1 <= info.channels
                &&& 1 <= info.sample_rate
                &&& 6 <= info.blocksize_0 <= info.blocksize_1 <= 13
            }),
            None => ident_fields_of(packet@) is None,
        },
{
    match lewton::header::read_header_ident(packet.as_slice()) {
        Ok(h) => Some(IdentInfo {
            channels: h.audio_channels,
            sample_rate: h.audio_sample_rate,
            bitrate_nominal: h.bitrate_nominal,
            blocksize_0: h.blocksize_0,
            blocksize_1: h.blocksize_1,
            header: h,
        }),
        Err(_) => None,
    }
}

/// Relies on `lewton::header::read_header_setup` to parse the Vorbis setup
/// packet for a stream with the given channel count and block sizes;
/// success is named `setup_header_ok`, a function of these inputs alone.
/// The `requires` are the identification header's own guarantees and keep
/// out the inputs on which the parser does arithmetic that would not fit:
/// it subtracts one from the channel count and shifts by the block sizes.
#[verifier::external_body]
fn parse_setup_packet(packet: &Vec<u8>, channels: u8, blocksize_0: u8, blocksize_1: u8) -> (r:
    Option<lewton::header::SetupHeader>)
    requires
        1 <= channels,
        6 <= blocksize_0 <= blocksize_1 <= 13,
    ensures
        r is Some <==> setup_header_ok(packet@, channels, blocksize_0, blocksize_1),
{
    lewton::header::read_header_setup(packet.as_slice(), channels, (blocksize_0, blocksize_1)).ok()
}

/// One decode attempt's outcome, as far as the pipeline tells them apart.
pub enum DecodeOutcome {
    /// Decoded PCM: one vector of samples per channel.
    Pcm(Vec<Vec<i16>>),
    /// The packet is a header packet (a mid-stream comment, usually).
    Header,
    /// The packet could not be decoded.
    Bad,
}

/// What parsing a Vorbis comment packet yields, as a function of the packet
/// bytes alone: the comment entries in order, or absent for a packet that
/// is no comment header.
pub uninterp spec fn comment_entries(packet: Seq<u8>) -> Option<Seq<(String, String)>>;

/// Relies on `lewton::header::read_header_comment` to parse a comment
/// packet; the result depends on the bytes alone and is named
/// `comment_entries`. The returned list is the header's own `comment_list`
/// field, moved out; a packet that is no comment header is absent.
#[verifier::external_body]
fn parse_comment_packet(packet: &Vec<u8>) -> (r: Option<Vec<(String, String)>>)
    ensures
        match r {
            Some(cs) => comment_entries(packet@) == Some(cs@),
            None => comment_entries(packet@) is None,
        },
{
    match lewton::header::read_header_comment(packet.as_slice()) {
        Ok(h) => Some(h.comment_list),
        Err(_) => None,
    }
}

/// Decoder state for one Ogg/Vorbis stream: the identification and setup
/// headers with the overlap-add window state. The three fields are private
/// and only ever created together by `VorbisDecoder::new`, so the window
/// state always belongs to these headers — which is what the decoder call
/// requires of its inputs. The plain fields are copies for the pipeline.
pub struct VorbisDecoder {
    ident: lewton::header::IdentHeader,
    setup: lewton::header::SetupHeader,
    pwr: lewton::audio::PreviousWindowRight,
    channels: u8,
    sample_rate: u32,
    bitrate_nominal: i32,
}

/// Relies on `lewton::audio::read_audio_packet`, the pure Vorbis decode of
/// one packet against the stream's headers and window state. The state in
/// `d` was created together with its headers (see `VorbisDecoder`), which
/// is the pairing the decoder requires, and `d`'s plain channel count is
/// the copy of that header's — so a decoded packet holds one sample vector
/// per channel, all of equal length, as the decoder builds them. The error
/// telling a header packet from a bad one is mapped arm by arm; the plain
/// fields are untouched.
#[verifier::external_body]
fn decode_with(d: &mut VorbisDecoder, packet: &Vec<u8>) -> (r: DecodeOutcome)
    ensures
        final(d).spec_channels() == old(d).spec_channels(),
        final(d).spec_sample_rate() == old(d).spec_sample_rate(),
        final(d).spec_bitrate_nominal() == old(d).spec_bitrate_nominal(),
        r matches DecodeOutcome::Pcm(pcm) ==> ({
            &&& pcm@.len() == old(d).spec_channels()
            &&& forall|i: int| 0 <= i < pcm@.len() ==> (#[trigger] pcm@[i])@.len()
                == pcm@[0]@.len()
        }),
{
    match lewton::audio::read_audio_packet(&d.ident, &d.setup, packet.as_slice(), &mut d.pwr) {
        Ok(pcm) => DecodeOutcome::Pcm(pcm),
        Err(lewton::audio::AudioReadError::AudioIsHeader) => DecodeOutcome::Header,
        Err(_) => DecodeOutcome::Bad,
    }
}

impl VorbisDecoder {
    /// Channel count reported by the identification header.
    pub closed spec fn spec_channels(self) -> u8 {
        self.channels
    }

    /// Sample rate reported by the identification header.
    pub closed spec fn spec_sample_rate(self) -> u32 {
        self.sample_rate
    }

    /// Nominal bitrate reported by the identification header.
    pub closed spec fn spec_bitrate_nominal(self) -> i32 {
        self.bitrate_nominal
    }

    /// Channel count of the stream; 1 or 2 expected.
    pub fn channels(&self) -> (r: u8)
        ensures
            r == self.spec_channels(),
    {
        self.channels
    }

    /// Sample rate of the stream in Hz.
    pub fn sample_rate(&self) -> (r: u32)
        ensures
            r == self.spec_sample_rate(),
    {
        self.sample_rate
    }

    /// Nominal bitrate of the stream in bits per second.
    pub fn bitrate_nominal(&self) -> (r: i32)
        ensures
            r == self.spec_bitrate_nominal(),
    {
        self.bitrate_nominal
    }

    /// Parses the identification and setup header packets and pairs them
    /// with a fresh window state. A decoder comes back exactly when the
    /// first packet is an identification header and the second a setup
    /// header for its channel count and block sizes; it reports that
    /// header's channel count, sample rate and nominal bitrate.
    pub fn new(ident_packet: &Vec<u8>, setup_packet: &Vec<u8>) -> (r: Option<VorbisDecoder>)
        ensures
            r is Some <==> (ident_fields_of(ident_packet@) matches Some(f) && setup_header_ok(
                setup_packet@,
                f.0,
                f.3,
                f.4,
            )),
            r matches Some(d) ==> ({
                &&& ident_fields_of(ident_packet@) matches Some(f)
                &&& d.spec_channels() == f.0
                &&& d.spec_sample_rate() == f.1
                &&& d.spec_bitrate_nominal() == f.2
                &&& 1 <= d.spec_channels()
                &&& 1 <= d.spec_sample_rate()
            }),
    {
        let info = match parse_ident_packet(ident_packet) {
            Some(i) => i,
            None => {
                return None;
            },
        };
        let setup = match parse_setup_packet(
            setup_packet,
            info.channels,
            info.blocksize_0,
            info.blocksize_1,
        ) {
            Some(s) => s,
            None => {
                return None;
            },
        };
        Some(
            VorbisDecoder {
                ident: info.header,
                setup,
                pwr: lewton::audio::PreviousWindowRight::new(),
                channels: info.channels,
                sample_rate: info.sample_rate,
                bitrate_nominal: info.bitrate_nominal,
            },
        )
    }

    /// Decodes one Ogg packet and classifies it: decoded PCM becomes an
    /// audio event; a header packet is read as a mid-stream comment and
    /// becomes a metadata event, or a bad packet when it is no comment; an
    /// undecodable packet is a bad packet. End-of-stream and transport
    /// failures come from the framing layer, never from here.
    pub fn decode_packet(&mut self, packet: &Vec<u8>) -> (r: Result<StreamRead, StreamError>)
        ensures
            final(self).spec_channels() == old(self).spec_channels(),
            final(self).spec_sample_rate() == old(self).spec_sample_rate(),
            final(self).spec_bitrate_nominal() == old(self).spec_bitrate_nominal(),
            !(r matches Ok(StreamRead::Eof)),
            !(r matches Err(StreamError::IoError)),
            r matches Ok(StreamRead::Audio(pcm)) ==> ({
                &&& pcm@.len() == old(self).spec_channels()
                &&& forall|i: int| 0 <= i < pcm@.len() ==> (#[trigger] pcm@[i])@.len()
                    == pcm@[0]@.len()
            }),
            r matches Ok(StreamRead::Metadata(m)) ==> ({
                &&& comment_entries(packet@) matches Some(cs)
                &&& m.artist == first_value_for(cs, "ARTIST"@)
                &&& m.title == first_value_for(cs, "TITLE"@)
            }),
    {
        match decode_with(self, packet) {
            DecodeOutcome::Pcm(pcm) => Ok(StreamRead::Audio(pcm)),
            DecodeOutcome::Header => match comment_metadata(packet) {
                Some(m) => Ok(StreamRead::Metadata(m)),
                None => Err(StreamError::BadPacket),
            },
            DecodeOutcome::Bad => Err(StreamError::BadPacket),
        }
    }
}

/// Parses one Vorbis comment packet into a metadata record: the packet's
/// entries per `comment_entries`, reduced to the first `ARTIST` and the
/// first `TITLE` value; absent when the packet is no comment header.
pub fn comment_metadata(packet: &Vec<u8>) -> (r: Option<Metadata>)
    ensures
        match r {
            Some(m) => ({
                &&& comment_entries(packet@) matches Some(cs)
                &&& m.artist == first_value_for(cs, "ARTIST"@)
                &&& m.title == first_value_for(cs, "TITLE"@)
            }),
            None => comment_entries(packet@) is None,
        },
{
    match parse_comment_packet(packet) {
        Some(comments) => Some(metadata_from_comments(comments)),
        None => None,
    }
}

/// The first value stored under `key` in a comment list, matched
/// case-sensitively.
pub open spec fn first_value_for(comments: Seq<(String, String)>, key: Seq<char>) -> Option<String>
    decreases comments.len(),
{
    if comments.len() == 0 {
        None
    } else if comments.first().0@ == key {
        Some(comments.first().1)
    } else {
        first_value_for(comments.drop_first(), key)
    }
}

/// Builds a metadata record from a Vorbis comment list: the first `ARTIST`
/// and the first `TITLE` entry win, matched case-sensitively; every other
/// field is ignored.
pub fn metadata_from_comments(comments: Vec<(String, String)>) -> (m: Metadata)
    ensures
        m.artist == first_value_for(comments@, "ARTIST"@),
        m.title == first_value_for(comments@, "TITLE"@),
{
    let ghost all = comments@;
    let n = comments.len();
    let mut artist: Option<String> = None;
    let mut title: Option<String> = None;
    let mut i: usize = 0;
    proof {
        reveal_strlit("ARTIST");
        reveal_strlit("TITLE");
        assert(all.skip(0) =~= all);
    }
    while i < n
        invariant
            n == all.len(),
            comments@ == all,
            i <= n,
            match artist {
                Some(_) => first_value_for(all, "ARTIST"@) == artist,
                None => first_value_for(all, "ARTIST"@) == first_value_for(
                    all.skip(i as int),
                    "ARTIST"@,
                ),
            },
            match title {
                Some(_) => first_value_for(all, "TITLE"@) == title,
                None => first_value_for(all, "TITLE"@) == first_value_for(
                    all.skip(i as int),
                    "TITLE"@,
                ),
            },
        decreases n - i,
    {
        proof {
            reveal_strlit("ARTIST");
            reveal_strlit("TITLE");
            assert(all.skip(i as int).first() == all[i as int]);
            assert(all.skip(i as int).drop_first() =~= all.skip(i + 1));
        }
        let key = comments[i].0.as_str();
        if artist.is_none() && str_eq(key, "ARTIST") {
            artist = Some(comments[i].1.clone());
            proof {
                reveal_strlit("ARTIST");
                reveal_strlit("TITLE");
                assert(("ARTIST"@).len() == 6);
                assert(("TITLE"@).len() == 5);
                assert(all[i as int].0@ != "TITLE"@);
            }
        } else if title.is_none() && str_eq(key, "TITLE") {
            title = Some(comments[i].1.clone());

        }
        i += 1;
    }
    proof {
        assert(all.skip(n as int) =~= Seq::<(String, String)>::empty());
    }
    Metadata { artist, title }
}

} // verus!
