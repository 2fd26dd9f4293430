//! The per-mountpoint registry and the source-session logic around it: the
//! claim / promote / release lifecycle with its Starting sentinel, listener
//! lookup and subscription, the per-packet pipeline policy, and the request
//! parsing the HTTP dispatcher relies on (mountpoint format, Basic-auth
//! password).

use crate::audio::{Metadata, StreamError, StreamRead};
use crate::config::Config;
use crate::fanout::{publish_post, recv_post, subscribe_post, Channel, Receiver};
use crate::hooks::HookError;
use crate::ident::{fresh_stream_id, StreamId};
use crate::log::Log;
use crate::text::{
    index_of, spec_ends_with, spec_index_of, spec_strip_suffix, str_eq, str_ieq, strip_suffix,
    seq_ieq, utf8_string,
};
use base64::Engine;
use vstd::pervasive::cloned;
use vstd::prelude::*;

verus! {

/// One encoded MP3 frame (or frame group), published to every listener queue
/// and appended to the dump file.
pub type StreamData = Vec<u8>;

/// Per-mountpoint state owned by the registry while a source is live.
pub struct Stream {
    /// The stream's immutable 128-bit identifier.
    pub id: StreamId,
    /// The mountpoint this stream is published at.
    pub mountpoint: String,
    /// Current now-playing metadata.
    pub metadata: Metadata,
    /// The fan-out of encoded frames to listeners.
    pub channel: Channel<StreamData>,
}

/// The per-subscriber queue capacity every stream is built with.
pub const STREAM_QUEUE_CAPACITY: usize = 16;

impl Stream {
    /// A fresh stream for `mountpoint`: random identifier, empty metadata,
    /// empty fan-out with the fixed queue capacity.
    pub fn new(mountpoint: String) -> (s: Stream)
        ensures
            s.mountpoint == mountpoint,
            s.metadata.artist is None,
            s.metadata.title is None,
            s.channel.wf(),
            s.channel.buffer_size == STREAM_QUEUE_CAPACITY,
            s.channel.subs@.len() == 0,
            s.channel.history@.len() == 0,
            !s.channel.closed,
            s.channel.can_subscribe(),
    {
        Stream {
            id: fresh_stream_id(),
            mountpoint,
            metadata: Metadata::empty(),
            channel: Channel::new(STREAM_QUEUE_CAPACITY),
        }
    }

    /// Publishes one encoded frame to every listener of this stream.
    pub fn publish(&mut self, bytes: StreamData)
        requires
            old(self).channel.wf(),
            !old(self).channel.closed,
        ensures
            final(self).channel.wf(),
            publish_post(old(self).channel, final(self).channel, bytes),
            final(self).id == old(self).id,
            final(self).mountpoint == old(self).mountpoint,
            final(self).metadata == old(self).metadata,
    {
        self.channel.publish(bytes);
    }

    /// Adds a listener queue to this stream.
    pub fn subscribe(&mut self) -> (r: Receiver)
        requires
            old(self).channel.wf(),
            old(self).channel.can_subscribe(),
        ensures
            final(self).channel.wf(),
            subscribe_post(old(self).channel, final(self).channel, r),
            final(self).id == old(self).id,
            final(self).mountpoint == old(self).mountpoint,
            final(self).metadata == old(self).metadata,
    {
        self.channel.subscribe()
    }
}

/// A registry entry: the exclusion token held while the admission hook runs,
/// or the live stream.
pub enum StreamEntry {
    /// The mountpoint is reserved while its source authenticates; listener
    /// lookups treat it as absent.
    Starting,
    /// The stream is live and visible to listeners.
    Live(Stream),
}

/// The stream inside a `Live` entry.
pub open spec fn stream_of(e: StreamEntry) -> Stream {
    match e {
        StreamEntry::Live(s) => s,
        StreamEntry::Starting => vstd::pervasive::arbitrary(),
    }
}

/// Why a source could not start broadcasting.
#[derive(Debug, Clone, Copy, PartialEq, Eq, Structural)]
pub enum StartStreamError {
    /// A stream already exists (starting or live) on this mountpoint.
    AlreadyLive,
    /// The admission hook said no.
    Rejected,
    /// The admission hook could not be reached or answered badly.
    Hook(HookError),
}

/// Proof of a successful claim on one mountpoint. The holder must hand it
/// back through `Rustcast::release` on every exit path; release removes the
/// registry entry whatever state it is in.
pub struct ClaimGuard {
    /// The claimed mountpoint.
    pub mountpoint: String,
}

/// First index whose mountpoint equals `m`, or -1.
pub open spec fn find_mount(entries: Seq<(String, StreamEntry)>, m: Seq<char>) -> int
    decreases entries.len(),
{
    if entries.len() == 0 {
        -1
    } else if entries.first().0@ == m {
        0
    } else {
        let r = find_mount(entries.drop_first(), m);
        if r == -1 {
            -1
        } else {
            r + 1
        }
    }
}

/// What `find_mount` returns: -1 exactly when no entry has the mountpoint,
/// otherwise the first index that does.
pub proof fn lemma_find_mount(entries: Seq<(String, StreamEntry)>, m: Seq<char>)
    ensures
        find_mount(entries, m) == -1 ==> forall|j: int|
            0 <= j < entries.len() ==> (#[trigger] entries[j]).0@ != m,
        find_mount(entries, m) != -1 ==> {
            let k = find_mount(entries, m);
            &&& 0 <= k < entries.len()
            &&& entries[k].0@ == m
            &&& forall|j: int| 0 <= j < k ==> (#[trigger] entries[j]).0@ != m
        },
    decreases entries.len(),
{
    if entries.len() > 0 {
        lemma_find_mount(entries.drop_first(), m);
        if entries.first().0@ != m {
            let r = find_mount(entries.drop_first(), m);
            if r == -1 {
                assert forall|j: int| 0 <= j < entries.len() implies (#[trigger] entries[j]).0@
                    != m by {
                    if j > 0 {
                        assert(entries.drop_first()[j - 1] == entries[j]);
                    }
                }
            } else {
                assert(entries.drop_first()[r] == entries[r + 1]);
                assert forall|j: int| 0 <= j < r + 1 implies (#[trigger] entries[j]).0@ != m by {
                    if j > 0 {
                        assert(entries.drop_first()[j - 1] == entries[j]);
                    }
                }
            }
        }
    }
}

/// What the pipeline should do with one source event.
pub enum PacketStep {
    /// Exit the loop: the source ended cleanly or its transport broke.
    Finish,
    /// Move on to the next event; nothing to encode.
    Continue,
    /// The frame is malformed (channel count mismatch): abort the pipeline.
    Abort,
    /// Encode this left/right sample pair and publish the result.
    Encode(Vec<i16>, Vec<i16>),
}

/// `r1` is `r0` with at most the entry at `m` replaced: same length, same
/// keys, every other entry untouched, and the index of `m` unmoved.
pub open spec fn updated_at(r0: Rustcast, r1: Rustcast, m: Seq<char>) -> bool {
    &&& r1.config == r0.config
    &&& r1.streams@.len() == r0.streams@.len()
    &&& forall|i: int|
        0 <= i < r0.streams@.len() && i != r0.mount_index(m) ==> r1.streams@[i] == r0.streams@[i]
    &&& r1.streams@[r0.mount_index(m)].0 == r0.streams@[r0.mount_index(m)].0
    &&& r1.mount_index(m) == r0.mount_index(m)
}

/// Identity of a stream is preserved: same id, same mountpoint.
pub open spec fn stream_core_same(s0: Stream, s1: Stream) -> bool {
    s1.id == s0.id && s1.mountpoint == s0.mountpoint
}

/// The process-wide server state: configuration, logger, and the registry
/// mapping each mountpoint to its entry.
pub struct Rustcast {
    /// The logger.
    pub log: Log,
    /// The loaded configuration.
    pub config: Config,
    /// The registry: one entry per claimed mountpoint.
    pub streams: Vec<(String, StreamEntry)>,
}

impl Rustcast {
    /// First registry index for mountpoint `m`, or -1.
    pub open spec fn mount_index(self, m: Seq<char>) -> int {
        find_mount(self.streams@, m)
    }

    /// Some entry (starting or live) exists for `m`.
    pub open spec fn has_mount(self, m: Seq<char>) -> bool {
        self.mount_index(m) >= 0
    }

    /// The entry for `m`; meaningful only when `has_mount(m)`.
    pub open spec fn entry_at(self, m: Seq<char>) -> StreamEntry
        recommends
            self.has_mount(m),
    {
        self.streams@[self.mount_index(m)].1
    }

    /// A live stream exists for `m`.
    pub open spec fn live_at(self, m: Seq<char>) -> bool {
        self.has_mount(m) && self.entry_at(m) is Live
    }

    /// The live stream at `m`; meaningful only when `live_at(m)`.
    pub open spec fn stream_at(self, m: Seq<char>) -> Stream
        recommends
            self.live_at(m),
    {
        stream_of(self.entry_at(m))
    }

    /// Registry invariant: mountpoints are pairwise distinct, and every live
    /// entry holds a coherent, open stream registered under its own
    /// mountpoint.
    pub open spec fn wf(self) -> bool {
        &&& forall|i: int, j: int|
            0 <= i < j < self.streams@.len() ==> (#[trigger] self.streams@[i]).0@ != (
            #[trigger] self.streams@[j]).0@
        &&& forall|i: int|
            0 <= i < self.streams@.len() ==> match (#[trigger] self.streams@[i]).1 {
                StreamEntry::Starting => true,
                StreamEntry::Live(s) => {
                    &&& s.mountpoint@ == self.streams@[i].0@
                    &&& s.channel.wf()
                    &&& !s.channel.closed
                },
            }
    }

    /// A new server around the given configuration, with an empty registry.
    pub fn new(config: Config) -> (r: Rustcast)
        ensures
            r.wf(),
            r.streams@.len() == 0,
            r.config == config,
    {
        Rustcast { log: Log::new(), config, streams: Vec::new() }
    }

    /// The registry index holding `mountpoint`, if any.
    fn find_index(&self, mountpoint: &str) -> (r: Option<usize>)
        ensures
            match r {
                Some(i) => self.mount_index(mountpoint@) == i && i < self.streams@.len()
                    && self.streams@[i as int].0@ == mountpoint@,
                None => !self.has_mount(mountpoint@),
            },
    {
        proof {
            lemma_find_mount(self.streams@, mountpoint@);
        }
        let n = self.streams.len();
        let mut i: usize = 0;
        while i < n
            invariant
                n == self.streams@.len(),
                i <= n,
                forall|j: int| 0 <= j < i ==> (#[trigger] self.streams@[j]).0@ != mountpoint@,
            decreases n - i,
        {
            if str_eq(self.streams[i].0.as_str(), mountpoint) {
                proof {
                    lemma_find_mount(self.streams@, mountpoint@);
                }
                return Some(i);
            }
            i += 1;
        }
        proof {
            lemma_find_mount(self.streams@, mountpoint@);
        }
        None
    }

    /// Reserves `mountpoint` for a new source. Refused while any entry —
    /// starting or live — exists there, leaving the registry unchanged;
    /// otherwise a `Starting` sentinel is appended and the claim guard for
    /// this mountpoint is returned.
    pub fn claim(&mut self, mountpoint: &str) -> (r: Result<ClaimGuard, StartStreamError>)
        requires
            old(self).wf(),
        ensures
            final(self).wf(),
            final(self).config == old(self).config,
            old(self).has_mount(mountpoint@) ==> {
                &&& r == Result::<ClaimGuard, StartStreamError>::Err(StartStreamError::AlreadyLive)
                &&& *final(self) == *old(self)
            },
            !old(self).has_mount(mountpoint@) ==> {
                &&& r matches Ok(g) && g.mountpoint@ == mountpoint@
                &&& final(self).streams@.len() == old(self).streams@.len() + 1
                &&& forall|i: int|
                    0 <= i < old(self).streams@.len() ==> final(self).streams@[i] == old(
                        self,
                    ).streams@[i]
                &&& final(self).streams@.last().0@ == mountpoint@
                &&& final(self).streams@.last().1 is Starting
                &&& final(self).has_mount(mountpoint@)
            },
    {
        match self.find_index(mountpoint) {
            Some(_) => Err(StartStreamError::AlreadyLive),
            None => {
                proof {
                    lemma_find_mount(self.streams@, mountpoint@);
                }
                let key = mountpoint.to_owned();
                self.streams.push((key, StreamEntry::Starting));
                proof {
                    assert(self.streams@.last().0@ == mountpoint@);
                    lemma_find_mount(self.streams@, mountpoint@);
                    assert(self.streams@[self.streams@.len() - 1].0@ == mountpoint@);
                    if self.mount_index(mountpoint@) == -1 {
                        assert(self.streams@[self.streams@.len() - 1].0@ != mountpoint@);
                    }
                }
                Ok(ClaimGuard { mountpoint: mountpoint.to_owned() })
            },
        }
    }

    /// Begins a source session: claims the mountpoint and builds the fresh
    /// stream (random identifier, empty metadata, empty fan-out) that will
    /// go live once the admission hook allows it. Refused with
    /// `AlreadyLive` — and nothing changed — while any entry exists there.
    pub fn start_stream(&mut self, mountpoint: &str) -> (r: Result<
        (ClaimGuard, Stream),
        StartStreamError,
    >)
        requires
            old(self).wf(),
        ensures
            final(self).wf(),
            final(self).config == old(self).config,
            old(self).has_mount(mountpoint@) ==> {
                &&& r == Result::<(ClaimGuard, Stream), StartStreamError>::Err(
                    StartStreamError::AlreadyLive,
                )
                &&& *final(self) == *old(self)
            },
            !old(self).has_mount(mountpoint@) ==> ({
                &&& final(self).streams@.len() == old(self).streams@.len() + 1
                &&& forall|i: int|
                    0 <= i < old(self).streams@.len() ==> final(self).streams@[i] == old(
                        self,
                    ).streams@[i]
                &&& final(self).streams@.last().0@ == mountpoint@
                &&& final(self).streams@.last().1 is Starting
                &&& final(self).has_mount(mountpoint@)
                &&& r matches Ok(gs) && {
                    &&& gs.0.mountpoint@ == mountpoint@
                    &&& gs.1.mountpoint@ == mountpoint@
                    &&& gs.1.metadata.artist is None
                    &&& gs.1.metadata.title is None
                    &&& gs.1.channel.wf()
                    &&& !gs.1.channel.closed
                    &&& gs.1.channel.can_subscribe()
                    &&& gs.1.channel.subs@.len() == 0
                    &&& gs.1.channel.history@.len() == 0
                    &&& gs.1.channel.buffer_size == STREAM_QUEUE_CAPACITY
                }
            }),
    {
        let guard = match self.claim(mountpoint) {
            Ok(g) => g,
            Err(e) => {
                return Err(e);
            },
        };
        let stream = Stream::new(mountpoint.to_owned());
        Ok((guard, stream))
    }

    /// Settles a claimed session against the admission hook's answer:
    /// `Allow` promotes the stream to live and keeps the guard; `Reject`
    /// and a hook failure remove the registry entry — the mountpoint is
    /// immediately reclaimable — and report the 403 or 500 error.
    pub fn authenticate(
        &mut self,
        guard: ClaimGuard,
        stream: Stream,
        decision: Result<crate::hooks::StreamStart, HookError>,
    ) -> (r: Result<ClaimGuard, StartStreamError>)
        requires
            old(self).wf(),
            old(self).has_mount(guard.mountpoint@),
            old(self).entry_at(guard.mountpoint@) is Starting,
            stream.mountpoint@ == guard.mountpoint@,
            stream.channel.wf(),
            !stream.channel.closed,
        ensures
            final(self).wf(),
            final(self).config == old(self).config,
            decision == Result::<crate::hooks::StreamStart, HookError>::Ok(
                crate::hooks::StreamStart::Allow,
            ) ==> ({
                &&& r matches Ok(g) && g.mountpoint@ == guard.mountpoint@
                &&& final(self).live_at(guard.mountpoint@)
                &&& final(self).stream_at(guard.mountpoint@) == stream
                &&& updated_at(*old(self), *final(self), guard.mountpoint@)
            }),
            decision == Result::<crate::hooks::StreamStart, HookError>::Ok(
                crate::hooks::StreamStart::Reject,
            ) ==> ({
                &&& r == Result::<ClaimGuard, StartStreamError>::Err(StartStreamError::Rejected)
                &&& !final(self).has_mount(guard.mountpoint@)
                &&& final(self).streams@ == old(self).streams@.remove(
                    old(self).mount_index(guard.mountpoint@),
                )
            }),
            decision matches Err(e) ==> ({
                &&& r == Result::<ClaimGuard, StartStreamError>::Err(StartStreamError::Hook(e))
                &&& !final(self).has_mount(guard.mountpoint@)
                &&& final(self).streams@ == old(self).streams@.remove(
                    old(self).mount_index(guard.mountpoint@),
                )
            }),
    {
        match decision {
            Ok(crate::hooks::StreamStart::Allow) => {
                self.promote(&guard, stream);
                proof {
                    lemma_find_mount(old(self).streams@, guard.mountpoint@);
                }
                Ok(guard)
            },
            Ok(crate::hooks::StreamStart::Reject) => {
                let _ = self.release(guard);
                Err(StartStreamError::Rejected)
            },
            Err(e) => {
                let _ = self.release(guard);
                Err(StartStreamError::Hook(e))
            },
        }
    }

    /// Replaces the `Starting` sentinel held by `guard` with the live
    /// stream. Only the guard owner can do this, which is why the entry is
    /// still `Starting`.
    pub fn promote(&mut self, guard: &ClaimGuard, stream: Stream)
        requires
            old(self).wf(),
            old(self).has_mount(guard.mountpoint@),
            old(self).entry_at(guard.mountpoint@) is Starting,
            stream.mountpoint@ == guard.mountpoint@,
            stream.channel.wf(),
            !stream.channel.closed,
        ensures
            final(self).wf(),
            final(self).config == old(self).config,
            final(self).streams@.len() == old(self).streams@.len(),
            forall|i: int|
                0 <= i < old(self).streams@.len() && i != old(self).mount_index(guard.mountpoint@)
                    ==> final(self).streams@[i] == old(self).streams@[i],
            ({
                let k = old(self).mount_index(guard.mountpoint@);
                &&& final(self).streams@[k].0 == old(self).streams@[k].0
                &&& final(self).streams@[k].1 == StreamEntry::Live(stream)
            }),
            final(self).mount_index(guard.mountpoint@) == old(self).mount_index(guard.mountpoint@),
            final(self).live_at(guard.mountpoint@),
    {
        proof {
            lemma_find_mount(self.streams@, guard.mountpoint@);
        }
        let i = match self.find_index(guard.mountpoint.as_str()) {
            Some(i) => i,
            None => {
                proof {
                    assert(false);
                }
                0
            },
        };
        let (key, _) = self.streams.remove(i);
        self.streams.insert(i, (key, StreamEntry::Live(stream)));
        proof {
            assert(self.streams@ =~= old(self).streams@.update(
                i as int,
                self.streams@[i as int],
            ));
            lemma_find_mount(self.streams@, guard.mountpoint@);
            lemma_find_mount(old(self).streams@, guard.mountpoint@);
            assert forall|j: int| 0 <= j < i implies (#[trigger] self.streams@[j]).0@
                != guard.mountpoint@ by {
                assert(self.streams@[j] == old(self).streams@[j]);
            }
            if self.mount_index(guard.mountpoint@) == -1 {
                assert(self.streams@[i as int].0@ != guard.mountpoint@);
            }
        }
    }

    /// Removes the registry entry held by `guard`, whatever its state: the
    /// mountpoint becomes immediately reclaimable. A live stream is handed
    /// back with its fan-out closed, so its subscribers drain their pending
    /// frames and then see end-of-stream.
    pub fn release(&mut self, guard: ClaimGuard) -> (r: Option<Stream>)
        requires
            old(self).wf(),
            old(self).has_mount(guard.mountpoint@),
        ensures
            final(self).wf(),
            final(self).config == old(self).config,
            !final(self).has_mount(guard.mountpoint@),
            final(self).streams@ == old(self).streams@.remove(
                old(self).mount_index(guard.mountpoint@),
            ),
            ({
                let e = old(self).entry_at(guard.mountpoint@);
                match r {
                    Some(s) => {
                        &&& e is Live
                        &&& s.id == stream_of(e).id
                        &&& s.mountpoint == stream_of(e).mountpoint
                        &&& s.metadata == stream_of(e).metadata
                        &&& s.channel.closed
                        &&& s.channel.wf()
                        &&& s.channel.buffer_size == stream_of(e).channel.buffer_size
                        &&& s.channel.next_id == stream_of(e).channel.next_id
                        &&& s.channel.subs@ == stream_of(e).channel.subs@
                        &&& s.channel.history@ == stream_of(e).channel.history@
                    },
                    None => e is Starting,
                }
            }),
    {
        proof {
            lemma_find_mount(self.streams@, guard.mountpoint@);
        }
        let i = match self.find_index(guard.mountpoint.as_str()) {
            Some(i) => i,
            None => {
                proof {
                    assert(false);
                }
                0
            },
        };
        let (_, entry) = self.streams.remove(i);
        proof {
            lemma_find_mount(self.streams@, guard.mountpoint@);
            assert forall|j: int| 0 <= j < self.streams@.len() implies (
            #[trigger] self.streams@[j]).0@ != guard.mountpoint@ by {
                if j < i {
                    assert(self.streams@[j] == old(self).streams@[j]);
                } else {
                    assert(self.streams@[j] == old(self).streams@[j + 1]);
                }
            }
            if self.mount_index(guard.mountpoint@) >= 0 {
                let k = self.mount_index(guard.mountpoint@);
                assert(self.streams@[k].0@ == guard.mountpoint@);
            }
        }
        match entry {
            StreamEntry::Starting => None,
            StreamEntry::Live(mut s) => {
                s.channel.close();
                Some(s)
            },
        }
    }

    /// The registry entry for `mountpoint`, if any — `Starting` included.
    pub fn get_stream(&self, mountpoint: &str) -> (r: Option<&StreamEntry>)
        ensures
            match r {
                Some(e) => self.has_mount(mountpoint@) && *e == self.entry_at(mountpoint@),
                None => !self.has_mount(mountpoint@),
            },
    {
        match self.find_index(mountpoint) {
            Some(i) => Some(&self.streams[i].1),
            None => None,
        }
    }

    /// The live stream at `mountpoint`. A `Starting` entry reads as absent:
    /// a mountpoint still authenticating is never shown to listeners.
    pub fn lookup(&self, mountpoint: &str) -> (r: Option<&Stream>)
        ensures
            match r {
                Some(s) => self.live_at(mountpoint@) && *s == self.stream_at(mountpoint@),
                None => !self.live_at(mountpoint@),
            },
    {
        match self.find_index(mountpoint) {
            Some(i) => match &self.streams[i].1 {
                StreamEntry::Live(s) => Some(s),
                StreamEntry::Starting => None,
            },
            None => None,
        }
    }

    /// Adds a listener queue to the live stream at `mountpoint` and returns
    /// its consumer handle. A `Starting` entry or an absent mountpoint reads
    /// absent, leaving everything unchanged.
    pub fn subscribe(&mut self, mountpoint: &str) -> (r: Option<Receiver>)
        requires
            old(self).wf(),
            old(self).live_at(mountpoint@) ==> old(self).stream_at(
                mountpoint@,
            ).channel.can_subscribe(),
        ensures
            final(self).wf(),
            !old(self).live_at(mountpoint@) ==> r is None && *final(self) == *old(self),
            old(self).live_at(mountpoint@) ==> ({
                &&& updated_at(*old(self), *final(self), mountpoint@)
                &&& final(self).live_at(mountpoint@)
                &&& stream_core_same(
                    old(self).stream_at(mountpoint@),
                    final(self).stream_at(mountpoint@),
                )
                &&& final(self).stream_at(mountpoint@).metadata == old(self).stream_at(
                    mountpoint@,
                ).metadata
                &&& r matches Some(rx) && subscribe_post(
                    old(self).stream_at(mountpoint@).channel,
                    final(self).stream_at(mountpoint@).channel,
                    rx,
                )
            }),
    {
        let i = match self.find_index(mountpoint) {
            Some(i) => i,
            None => {
                return None;
            },
        };
        match &self.streams[i].1 {
            StreamEntry::Starting => {
                return None;
            },
            StreamEntry::Live(_) => {},
        }
        let (key, entry) = self.streams.remove(i);
        let mut s = match entry {
            StreamEntry::Live(s) => s,
            StreamEntry::Starting => vstd::pervasive::unreached(),
        };
        let rx = s.subscribe();
        self.streams.insert(i, (key, StreamEntry::Live(s)));
        proof {
            self.lemma_entry_updated(*old(self), i as int, mountpoint@);
        }
        Some(rx)
    }

    /// Whether a recv for `rx` at `mountpoint` would return now rather than
    /// wait. The model's `recv` never blocks, so a listener loop polls this
    /// before each call; on a released or missing mountpoint recv is always
    /// ready (it reports end-of-stream).
    pub fn recv_ready_now(&self, mountpoint: &str, rx: &Receiver) -> (r: bool)
        requires
            self.wf(),
        ensures
            r <==> (self.live_at(mountpoint@) ==> self.stream_at(mountpoint@).channel.recv_ready(
                rx.id,
            )),
    {
        match self.lookup(mountpoint) {
            None => true,
            Some(s) => {
                proof {
                    lemma_find_mount(self.streams@, mountpoint@);
                    let k = self.mount_index(mountpoint@);
                    assert(match self.streams@[k].1 {
                        StreamEntry::Live(st) => st.channel.wf(),
                        StreamEntry::Starting => true,
                    });
                }
                s.channel.ready(rx.id)
            },
        }
    }

    /// Takes the oldest pending frame of one listener queue of the live
    /// stream at `mountpoint`; absent when no live stream is there.
    pub fn recv(&mut self, mountpoint: &str, rx: &Receiver) -> (r: Option<StreamData>)
        requires
            old(self).wf(),
            old(self).live_at(mountpoint@) ==> old(self).stream_at(mountpoint@).channel.recv_ready(
                rx.id,
            ),
        ensures
            final(self).wf(),
            !old(self).live_at(mountpoint@) ==> r is None && *final(self) == *old(self),
            old(self).live_at(mountpoint@) ==> updated_at(*old(self), *final(self), mountpoint@)
                && final(self).live_at(mountpoint@) && stream_core_same(
                old(self).stream_at(mountpoint@),
                final(self).stream_at(mountpoint@),
            ) && final(self).stream_at(mountpoint@).metadata == old(self).stream_at(
                mountpoint@,
            ).metadata && recv_post(
                old(self).stream_at(mountpoint@).channel,
                final(self).stream_at(mountpoint@).channel,
                rx.id,
                r,
            ),
    {
        let i = match self.find_index(mountpoint) {
            Some(i) => i,
            None => {
                return None;
            },
        };
        match &self.streams[i].1 {
            StreamEntry::Starting => {
                return None;
            },
            StreamEntry::Live(_) => {},
        }
        let (key, entry) = self.streams.remove(i);
        let mut s = match entry {
            StreamEntry::Live(s) => s,
            StreamEntry::Starting => vstd::pervasive::unreached(),
        };
        let r = rx.recv(&mut s.channel);
        self.streams.insert(i, (key, StreamEntry::Live(s)));
        proof {
            self.lemma_entry_updated(*old(self), i as int, mountpoint@);
        }
        r
    }

    /// Publishes one encoded frame through the fan-out of the stream held by
    /// `guard`: every listener with room gets it, every listener whose queue
    /// is full is evicted before the call returns.
    pub fn publish_frame(&mut self, guard: &ClaimGuard, bytes: StreamData)
        requires
            old(self).wf(),
            old(self).live_at(guard.mountpoint@),
        ensures
            final(self).wf(),
            updated_at(*old(self), *final(self), guard.mountpoint@),
            final(self).live_at(guard.mountpoint@),
            stream_core_same(
                old(self).stream_at(guard.mountpoint@),
                final(self).stream_at(guard.mountpoint@),
            ),
            final(self).stream_at(guard.mountpoint@).metadata == old(self).stream_at(
                guard.mountpoint@,
            ).metadata,
            publish_post(
                old(self).stream_at(guard.mountpoint@).channel,
                final(self).stream_at(guard.mountpoint@).channel,
                bytes,
            ),
    {
        let i = match self.find_index(guard.mountpoint.as_str()) {
            Some(i) => i,
            None => {
                proof {
                    assert(false);
                }
                0
            },
        };
        let (key, entry) = self.streams.remove(i);
        match entry {
            StreamEntry::Starting => {
                proof {
                    assert(false);
                }
                self.streams.insert(i, (key, StreamEntry::Starting));
            },
            StreamEntry::Live(mut s) => {
                s.publish(bytes);
                self.streams.insert(i, (key, StreamEntry::Live(s)));
                proof {
                    self.lemma_entry_updated(*old(self), i as int, guard.mountpoint@);
                }
            },
        }
    }

    /// Applies one source event to the session held by `guard`, following
    /// the per-packet policy: a clean end or a transport failure finishes
    /// the session; a bad packet is skipped; a metadata event replaces the
    /// stream's metadata in place; an audio packet whose channel count does
    /// not match the source is malformed and aborts; a matching audio packet
    /// is turned into the stereo pair to encode, duplicating a mono channel.
    pub fn source_packet(
        &mut self,
        guard: &ClaimGuard,
        event: Result<StreamRead, StreamError>,
        channels: u8,
    ) -> (r: PacketStep)
        requires
            old(self).wf(),
            old(self).live_at(guard.mountpoint@),
        ensures
            final(self).wf(),
            updated_at(*old(self), *final(self), guard.mountpoint@),
            final(self).live_at(guard.mountpoint@),
            stream_core_same(
                old(self).stream_at(guard.mountpoint@),
                final(self).stream_at(guard.mountpoint@),
            ),
            final(self).stream_at(guard.mountpoint@).channel == old(self).stream_at(
                guard.mountpoint@,
            ).channel,
            ({
                let m0 = old(self).stream_at(guard.mountpoint@).metadata;
                let m1 = final(self).stream_at(guard.mountpoint@).metadata;
                match event {
                    Ok(StreamRead::Eof) => r is Finish && m1 == m0,
                    Ok(StreamRead::Metadata(m)) => r is Continue && m1 == m,
                    Ok(StreamRead::Audio(p)) => m1 == m0 && {
                        if channels == 0 || p@.len() != channels {
                            r is Abort
                        } else if channels == 1 {
                            r matches PacketStep::Encode(l, rt) && l == p@[0] && rt@ == p@[0]@
                        } else {
                            r matches PacketStep::Encode(l, rt) && l == p@[0] && rt == p@[1]
                        }
                    },
                    Err(StreamError::IoError) => r is Finish && m1 == m0,
                    Err(StreamError::BadPacket) => r is Continue && m1 == m0,
                }
            }),
    {
        match event {
            Ok(StreamRead::Eof) => PacketStep::Finish,
            Err(StreamError::IoError) => PacketStep::Finish,
            Err(StreamError::BadPacket) => PacketStep::Continue,
            Ok(StreamRead::Metadata(m)) => {
                let i = match self.find_index(guard.mountpoint.as_str()) {
                    Some(i) => i,
                    None => {
                        proof {
                            assert(false);
                        }
                        0
                    },
                };
                let (key, entry) = self.streams.remove(i);
                match entry {
                    StreamEntry::Starting => {
                        proof {
                            assert(false);
                        }
                        self.streams.insert(i, (key, StreamEntry::Starting));
                    },
                    StreamEntry::Live(mut s) => {
                        s.metadata = m;
                        self.streams.insert(i, (key, StreamEntry::Live(s)));
                        proof {
                            self.lemma_entry_updated(*old(self), i as int, guard.mountpoint@);
                        }
                    },
                }
                PacketStep::Continue
            },
            Ok(StreamRead::Audio(p)) => {
                let mut p = p;
                if channels == 0 || p.len() != channels as usize {
                    PacketStep::Abort
                } else if channels == 1 {
                    let rt = p[0].clone();
                    proof {
                        assert forall|j: int| 0 <= j < rt@.len() implies rt@[j] == p@[0]@[j] by {
                            assert(cloned::<i16>(p@[0]@[j], rt@[j]));
                        }
                        assert(rt@ =~= p@[0]@);
                    }
                    let l = p.remove(0);
                    PacketStep::Encode(l, rt)
                } else {
                    let l = p.remove(0);
                    let rt = p.remove(0);
                    PacketStep::Encode(l, rt)
                }
            },
        }
    }

    /// In-place replacement of the entry at index `k` (same mountpoint key)
    /// moves no registry index and preserves every other entry.
    proof fn lemma_entry_updated(self, prev: Rustcast, k: int, m: Seq<char>)
        requires
            prev.wf(),
            0 <= k < prev.streams@.len(),
            prev.mount_index(m) == k,
            self.streams@.len() == prev.streams@.len(),
            self.streams@[k].0 == prev.streams@[k].0,
            forall|i: int|
                0 <= i < prev.streams@.len() && i != k ==> self.streams@[i] == prev.streams@[i],
            self.config == prev.config,
        ensures
            self.mount_index(m) == k,
            updated_at(prev, self, m),
            forall|i: int, j: int|
                0 <= i < j < self.streams@.len() ==> (#[trigger] self.streams@[i]).0@ != (
                #[trigger] self.streams@[j]).0@,
    {
        lemma_find_mount(prev.streams@, m);
        assert forall|i: int, j: int| 0 <= i < j < self.streams@.len() implies (
        #[trigger] self.streams@[i]).0@ != (#[trigger] self.streams@[j]).0@ by {
            assert(self.streams@[i].0@ == prev.streams@[i].0@);
            assert(self.streams@[j].0@ == prev.streams@[j].0@);
        }
        lemma_find_mount(self.streams@, m);
        assert(self.streams@[k].0@ == m);
        if self.mount_index(m) != k {
            let k2 = self.mount_index(m);
            if k2 == -1 {
                assert(self.streams@[k].0@ != m);
            } else if k2 < k {
                assert(self.streams@[k2].0@ == m);
                assert(prev.streams@[k2].0@ == m);
            } else {
                assert(self.streams@[k].0@ != m);
            }
        }
    }

    /// A snapshot of the live stream's now-playing metadata, for the JSON
    /// endpoint; absent when no live stream is at `mountpoint`.
    pub fn now_playing(&self, mountpoint: &str) -> (r: Option<Metadata>)
        ensures
            match r {
                Some(m) => self.live_at(mountpoint@) && m == self.stream_at(mountpoint@).metadata,
                None => !self.live_at(mountpoint@),
            },
    {
        match self.lookup(mountpoint) {
            Some(s) => Some(s.metadata.snapshot()),
            None => None,
        }
    }
}

/// Law: the registry never holds two entries for one mountpoint. Every
/// operation — claim, promote, release and the per-packet updates —
/// preserves `wf`, whose first conjunct is exactly this.
pub proof fn lemma_one_entry_per_mountpoint(r: Rustcast, i: int, j: int)
    requires
        r.wf(),
        0 <= i < r.streams@.len(),
        0 <= j < r.streams@.len(),
        i != j,
    ensures
        r.streams@[i].0@ != r.streams@[j].0@,
{
}

/// Live streams carry pairwise distinct identifiers.
pub open spec fn live_ids_unique(r: Rustcast) -> bool {
    forall|i: int, j: int|
        0 <= i < j < r.streams@.len() && (#[trigger] r.streams@[i]).1 is Live && (
        #[trigger] r.streams@[j]).1 is Live ==> stream_of(r.streams@[i].1).id != stream_of(
            r.streams@[j].1,
        ).id
}

/// Law: a claim preserves the distinctness of live stream identifiers — it
/// only appends a `Starting` sentinel.
pub proof fn lemma_claim_preserves_id_uniqueness(r0: Rustcast, r1: Rustcast)
    requires
        live_ids_unique(r0),
        r1.streams@.len() == r0.streams@.len() + 1,
        forall|i: int| 0 <= i < r0.streams@.len() ==> r1.streams@[i] == r0.streams@[i],
        r1.streams@.last().1 is Starting,
    ensures
        live_ids_unique(r1),
{
    assert forall|i: int, j: int|
        0 <= i < j < r1.streams@.len() && (#[trigger] r1.streams@[i]).1 is Live && (
        #[trigger] r1.streams@[j]).1 is Live implies stream_of(r1.streams@[i].1).id != stream_of(
        r1.streams@[j].1,
    ).id by {
        assert(j < r0.streams@.len());
    }
}

/// Law: promoting a stream whose identifier differs from every live one
/// keeps live identifiers pairwise distinct. Identifiers are 128 random
/// bits drawn at stream creation, so the freshness hypothesis itself is
/// probabilistic and cannot be discharged here.
pub proof fn lemma_promote_preserves_id_uniqueness(
    r0: Rustcast,
    r1: Rustcast,
    k: int,
    stream: Stream,
)
    requires
        live_ids_unique(r0),
        0 <= k < r0.streams@.len(),
        r1.streams@.len() == r0.streams@.len(),
        forall|i: int| 0 <= i < r0.streams@.len() && i != k ==> r1.streams@[i] == r0.streams@[i],
        r1.streams@[k].1 == StreamEntry::Live(stream),
        forall|i: int|
            0 <= i < r0.streams@.len() && (#[trigger] r0.streams@[i]).1 is Live ==> stream_of(
                r0.streams@[i].1,
            ).id != stream.id,
    ensures
        live_ids_unique(r1),
{
}

/// Law: releasing a mountpoint preserves the distinctness of live stream
/// identifiers — it only removes an entry.
pub proof fn lemma_release_preserves_id_uniqueness(r0: Rustcast, r1: Rustcast, k: int)
    requires
        live_ids_unique(r0),
        0 <= k < r0.streams@.len(),
        r1.streams@ == r0.streams@.remove(k),
    ensures
        live_ids_unique(r1),
{
    assert forall|i: int, j: int|
        0 <= i < j < r1.streams@.len() && (#[trigger] r1.streams@[i]).1 is Live && (
        #[trigger] r1.streams@[j]).1 is Live implies stream_of(r1.streams@[i].1).id != stream_of(
        r1.streams@[j].1,
    ).id by {
        let i0: int = if i < k {
            i
        } else {
            i + 1
        };
        let j0: int = if j < k {
            j
        } else {
            j + 1
        };
        assert(r1.streams@[i] == r0.streams@[i0]);
        assert(r1.streams@[j] == r0.streams@[j0]);
    }
}

/// The HTTP status a source receives when it cannot start: 409 when the
/// mountpoint is taken, 403 when the admission hook rejects it, 500 when
/// the hook fails.
pub fn response_status(e: &StartStreamError) -> (s: u16)
    ensures
        match e {
            StartStreamError::AlreadyLive => s == 409,
            StartStreamError::Rejected => s == 403,
            StartStreamError::Hook(_) => s == 500,
        },
{
    match e {
        StartStreamError::AlreadyLive => 409,
        StartStreamError::Rejected => 403,
        StartStreamError::Hook(_) => 500,
    }
}

/// Request formats a listener can ask for: the raw MP3 byte stream or the
/// now-playing metadata as JSON.
#[derive(PartialEq, Eq, Structural, Clone, Copy, Debug)]
pub enum RequestFormat {
    /// The encoded audio stream.
    Mp3,
    /// The now-playing metadata.
    Json,
}

/// Splits a request path into the format asked for and the mountpoint: a
/// `.mp3` or `.json` extension is stripped and selects the format; a bare
/// path is an MP3 request for the whole path.
pub fn extract_request_format(path: &str) -> (r: (RequestFormat, String))
    ensures
        spec_ends_with(path@, ".mp3"@) ==> r.0 == RequestFormat::Mp3 && r.1@ == spec_strip_suffix(
            path@,
            ".mp3"@,
        ),
        !spec_ends_with(path@, ".mp3"@) && spec_ends_with(path@, ".json"@) ==> r.0
            == RequestFormat::Json && r.1@ == spec_strip_suffix(path@, ".json"@),
        !spec_ends_with(path@, ".mp3"@) && !spec_ends_with(path@, ".json"@) ==> r.0
            == RequestFormat::Mp3 && r.1@ == path@,
{
    if let Some(m) = strip_suffix(path, ".mp3") {
        (RequestFormat::Mp3, m.to_owned())
    } else if let Some(m) = strip_suffix(path, ".json") {
        (RequestFormat::Json, m.to_owned())
    } else {
        (RequestFormat::Mp3, path.to_owned())
    }
}

/// An MP3 output buffer for a packet of `num_samples` samples per channel,
/// sized as the encoder's worst case asks: `num_samples * 5 / 4 + 7200`
/// zeroed bytes.
pub fn mp3_buffer(num_samples: usize) -> (buf: Vec<u8>)
    requires
        num_samples <= usize::MAX / 5,
    ensures
        buf@.len() == (num_samples * 5) / 4 + 7200,
        forall|i: int| 0 <= i < buf@.len() ==> buf@[i] == 0,
{
    let n = (num_samples * 5) / 4 + 7200;
    let buf: Vec<u8> = vec![0u8; n];
    buf
}

/// The encoded frame: the output buffer cut down to the byte count the
/// encoder reported.
pub fn finish_frame(mp3buff: Vec<u8>, size: usize) -> (r: Vec<u8>)
    requires
        size <= mp3buff@.len(),
    ensures
        r@ == mp3buff@.subrange(0, size as int),
{
    let mut buf = mp3buff;
    buf.truncate(size);
    buf
}

/// What the decoder's result of standard base64 decoding is, as a function
/// of the encoded characters alone; absent for rejected input.
pub uninterp spec fn base64_decoded(s: Seq<char>) -> Option<Seq<u8>>;

/// Relies on base64's standard-alphabet, padded engine
/// (`general_purpose::STANDARD.decode`): the result depends on the input
/// characters alone, named `base64_decoded` here; rejected input is absent.
#[verifier::external_body]
fn base64_decode(s: &str) -> (r: Option<Vec<u8>>)
    ensures
        match r {
            Some(b) => base64_decoded(s@) == Some(b@),
            None => base64_decoded(s@) is None,
        },
{
    base64::engine::general_purpose::STANDARD.decode(s).ok()
}

/// The second space-separated word of an `Authorization` value whose first
/// word is exactly `Basic`; absent otherwise.
pub open spec fn spec_scheme_token(v: Seq<char>) -> Option<Seq<char>> {
    let sp = spec_index_of(v, ' ');
    if sp == -1 {
        None
    } else if v.subrange(0, sp) == "Basic"@ {
        let rest = v.subrange(sp + 1, v.len() as int);
        let sp2 = spec_index_of(rest, ' ');
        if sp2 == -1 {
            Some(rest)
        } else {
            Some(rest.subrange(0, sp2))
        }
    } else {
        None
    }
}

/// The Basic credentials token: from the first `Authorization` header
/// (ASCII-case-insensitive name) carrying the `Basic` scheme.
pub open spec fn spec_basic_token(hs: Seq<(String, String)>) -> Option<Seq<char>>
    decreases hs.len(),
{
    if hs.len() == 0 {
        None
    } else if seq_ieq(hs.first().0@, "Authorization"@) {
        match spec_scheme_token(hs.first().1@) {
            Some(t) => Some(t),
            None => spec_basic_token(hs.drop_first()),
        }
    } else {
        spec_basic_token(hs.drop_first())
    }
}

/// The password in a header list: the Basic token, base64-decoded, read as
/// UTF-8, cut after the first `:`. Any failure along the way means no
/// password.
pub open spec fn spec_password(hs: Seq<(String, String)>) -> Option<Seq<char>> {
    match spec_basic_token(hs) {
        None => None,
        Some(tok) => match base64_decoded(tok) {
            None => None,
            Some(bytes) => if vstd::utf8::valid_utf8(bytes) {
                let creds = vstd::utf8::decode_utf8(bytes);
                let c = spec_index_of(creds, ':');
                if c == -1 {
                    None
                } else {
                    Some(creds.subrange(c + 1, creds.len() as int))
                }
            } else {
                None
            },
        },
    }
}

/// The `Basic` scheme token of one header value, per `spec_scheme_token`.
fn scheme_token(v: &str) -> (r: Option<String>)
    ensures
        match r {
            Some(t) => spec_scheme_token(v@) == Some(t@),
            None => spec_scheme_token(v@) is None,
        },
{
    let sp = match index_of(v, ' ') {
        Some(i) => i,
        None => {
            return None;
        },
    };
    proof {
        crate::text::lemma_index_of(v@, ' ');
    }
    let first = v.substring_char(0, sp);
    if !str_eq(first, "Basic") {
        return None;
    }
    let v_len = v.unicode_len();
    let rest = v.substring_char(sp + 1, v_len);
    match index_of(rest, ' ') {
        Some(j) => {
            proof {
                crate::text::lemma_index_of(rest@, ' ');
            }
            Some(rest.substring_char(0, j).to_owned())
        },
        None => Some(rest.to_owned()),
    }
}

/// The Basic credentials token among the request headers, if any.
fn find_basic_token(headers: &Vec<(String, String)>) -> (r: Option<String>)
    ensures
        match r {
            Some(t) => spec_basic_token(headers@) == Some(t@),
            None => spec_basic_token(headers@) is None,
        },
{
    let n = headers.len();
    let mut i: usize = 0;
    proof {
        assert(headers@.skip(0) =~= headers@);
    }
    while i < n
        invariant
            n == headers@.len(),
            i <= n,
            spec_basic_token(headers@) == spec_basic_token(headers@.skip(i as int)),
        decreases n - i,
    {
        proof {
            assert(headers@.skip(i as int).first() == headers@[i as int]);
            assert(headers@.skip(i as int).drop_first() =~= headers@.skip(i + 1));
        }
        if str_ieq(headers[i].0.as_str(), "Authorization") {
            match scheme_token(headers[i].1.as_str()) {
                Some(t) => {
                    return Some(t);
                },
                None => {},
            }
        }
        i += 1;
    }
    proof {
        assert(headers@.skip(n as int) =~= Seq::<(String, String)>::empty());
    }
    None
}

/// The HTTP Basic password of a source request: the first `Authorization`
/// header with the `Basic` scheme, base64-decoded, read as UTF-8, everything
/// after the first `:`. A missing header, a malformed token or credentials
/// without a `:` yield no password.
pub fn password_from_headers(headers: &Vec<(String, String)>) -> (r: Option<String>)
    ensures
        match r {
            Some(p) => spec_password(headers@) == Some(p@),
            None => spec_password(headers@) is None,
        },
{
    let token = match find_basic_token(headers) {
        Some(t) => t,
        None => {
            return None;
        },
    };
    let bytes = match base64_decode(token.as_str()) {
        Some(b) => b,
        None => {
            return None;
        },
    };
    let creds = match utf8_string(bytes) {
        Some(s) => s,
        None => {
            return None;
        },
    };
    let creds_str = creds.as_str();
    match index_of(creds_str, ':') {
        Some(i) => {
            proof {
                crate::text::lemma_index_of(creds_str@, ':');
            }
            let len = creds_str.unicode_len();
            Some(creds_str.substring_char(i + 1, len).to_owned())
        },
        None => None,
    }
}

} // verus!
