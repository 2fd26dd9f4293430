//! A single-producer, many-consumer broadcast primitive with bounded
//! per-subscriber FIFO queues and a lossy-on-full policy: a publish never
//! waits for a slow consumer; a consumer whose queue is full is dropped from
//! the subscriber set instead.
//!
//! The channel carries a ghost `history` of every value ever published.
//! Well-formedness ties each subscriber's pending queue to a gapless,
//! in-order window of that history, which is what makes the delivery-order
//! laws provable.

use vstd::pervasive::cloned;
use vstd::prelude::*;

verus! {

/// One subscriber's bounded FIFO queue, tagged with a stable identifier so
/// eviction removes exactly the intended entry. While an entry is live, its
/// queue reaches to the end of the publish history: it holds every frame
/// published since the subscriber joined, minus those already received.
pub struct Subscriber<T> {
    /// Stable identifier, unique within the channel for its whole lifetime.
    pub id: u64,
    /// Pending values, oldest first.
    pub queue: Vec<T>,
    /// Length of the publish history when this subscriber joined.
    pub joined: Ghost<nat>,
    /// How many values this subscriber has already received.
    pub taken: Ghost<nat>,
    /// The values this subscriber has received, in the order `recv`
    /// returned them.
    pub received: Ghost<Seq<T>>,
}

/// The producer side: the subscriber set, the fixed per-subscriber capacity,
/// and the ghost log of everything published so far.
pub struct Channel<T> {
    /// Capacity of each subscriber queue, fixed at construction.
    pub buffer_size: usize,
    /// Current subscribers, each with its pending queue.
    pub subs: Vec<Subscriber<T>>,
    /// Next fresh subscriber identifier.
    pub next_id: u64,
    /// True once the producer is gone; receivers then drain and see
    /// end-of-stream.
    pub closed: bool,
    /// Every value ever published, in publish order.
    pub history: Ghost<Seq<T>>,
}

/// Consumer handle: the identifier of one subscriber queue.
#[derive(Debug, Clone, Copy, PartialEq, Eq, Structural)]
pub struct Receiver {
    /// Identifier of the subscriber entry this handle reads.
    pub id: u64,
}

/// A subscriber entry is coherent with the channel around it: its queue fits
/// the capacity and holds clones of the history window starting at
/// `joined + taken` — the frames published after it joined and not yet
/// received, in order, with nothing skipped or repeated.
pub open spec fn sub_ok<T: Clone>(s: Subscriber<T>, log: Seq<T>, cap: nat, next_id: u64) -> bool {
    &&& s.id < next_id
    &&& s.queue@.len() <= cap
    &&& s.joined@ + s.taken@ + s.queue@.len() == log.len()
    &&& forall|j: int|
        0 <= j < s.queue@.len() ==> cloned::<T>(
            log[s.joined@ + s.taken@ + j],
            #[trigger] s.queue@[j],
        )
    &&& s.received@.len() == s.taken@
    &&& forall|j: int|
        0 <= j < s.received@.len() ==> cloned::<T>(log[s.joined@ + j], #[trigger] s.received@[j])
}

/// The subscribers that survive a publish: those whose queue still has room.
/// Order among survivors is preserved.
pub open spec fn kept_subs<T: Clone>(subs: Seq<Subscriber<T>>, cap: nat) -> Seq<Subscriber<T>>
    decreases subs.len(),
{
    if subs.len() == 0 {
        Seq::empty()
    } else {
        let rest = kept_subs(subs.drop_last(), cap);
        if subs.last().queue@.len() < cap {
            rest.push(subs.last())
        } else {
            rest
        }
    }
}

/// `s_new` is `s_old` with one published value appended to its queue: same
/// identity and accounting, one more pending element, a clone of `data`.
pub open spec fn extends_with<T: Clone>(
    s_new: Subscriber<T>,
    s_old: Subscriber<T>,
    data: T,
) -> bool {
    &&& s_new.id == s_old.id
    &&& s_new.joined@ == s_old.joined@
    &&& s_new.taken@ == s_old.taken@
    &&& s_new.received@ == s_old.received@
    &&& s_new.queue@.len() == s_old.queue@.len() + 1
    &&& forall|j: int| 0 <= j < s_old.queue@.len() ==> s_new.queue@[j] == #[trigger] s_old.queue@[j]
    &&& cloned::<T>(data, s_new.queue@[s_old.queue@.len() as int])
}

/// The state relation of one publish call: the history grows by `data`, the
/// survivors are exactly `kept_subs` of the old subscriber set, in order,
/// each extended with a clone of `data`; capacity, identifiers and the
/// closed flag are untouched.
pub open spec fn publish_post<T: Clone>(c0: Channel<T>, c1: Channel<T>, data: T) -> bool {
    &&& c1.buffer_size == c0.buffer_size
    &&& c1.closed == c0.closed
    &&& c1.next_id == c0.next_id
    &&& c1.history@ == c0.history@.push(data)
    &&& c1.subs@.len() == kept_subs(c0.subs@, c0.cap()).len()
    &&& forall|i: int|
        0 <= i < c1.subs@.len() ==> extends_with(
            #[trigger] c1.subs@[i],
            kept_subs(c0.subs@, c0.cap())[i],
            data,
        )
}

/// The state relation of one subscribe call: one fresh, empty subscriber
/// queue is appended, starting at the current end of the history; everything
/// else is untouched.
pub open spec fn subscribe_post<T: Clone>(c0: Channel<T>, c1: Channel<T>, r: Receiver) -> bool {
    &&& c1.buffer_size == c0.buffer_size
    &&& c1.closed == c0.closed
    &&& c1.history@ == c0.history@
    &&& c1.next_id == c0.next_id + 1
    &&& c1.subs@.len() == c0.subs@.len() + 1
    &&& forall|i: int| 0 <= i < c0.subs@.len() ==> c1.subs@[i] == c0.subs@[i]
    &&& !c0.has_sub(r.id)
    &&& ({
        let s = c1.subs@.last();
        &&& s.id == r.id
        &&& s.queue@.len() == 0
        &&& s.joined@ == c0.history@.len()
        &&& s.taken@ == 0
        &&& s.received@.len() == 0
    })
}

/// The state relation of one recv call for handle `id`: an unknown handle
/// reads absent and changes nothing; a known handle with a pending value
/// takes the oldest one — the next frame of the history after those already
/// received; a known handle with an empty queue reads absent.
pub open spec fn recv_post<T: Clone>(c0: Channel<T>, c1: Channel<T>, id: u64, r: Option<T>) -> bool {
    &&& c1.buffer_size == c0.buffer_size
    &&& c1.closed == c0.closed
    &&& c1.next_id == c0.next_id
    &&& c1.history@ == c0.history@
    &&& (!c0.has_sub(id) ==> r is None && c1 == c0)
    &&& c1.subs@.len() == c0.subs@.len()
    &&& forall|i: int|
        0 <= i < c0.subs@.len() && (#[trigger] c0.subs@[i]).id != id ==> c1.subs@[i] == c0.subs@[i]
    &&& forall|i: int|
        0 <= i < c0.subs@.len() && (#[trigger] c0.subs@[i]).id == id ==> {
            let s_old = c0.subs@[i];
            let s_new = c1.subs@[i];
            if s_old.queue@.len() > 0 {
                &&& r == Some(s_old.queue@[0])
                &&& cloned::<T>(c0.history@[(s_old.joined@ + s_old.taken@) as int], s_old.queue@[0])
                &&& s_new.id == s_old.id
                &&& s_new.joined@ == s_old.joined@
                &&& s_new.taken@ == s_old.taken@ + 1
                &&& s_new.queue@ == s_old.queue@.drop_first()
                &&& s_new.received@ == s_old.received@.push(s_old.queue@[0])
            } else {
                r is None && s_new == s_old
            }
        }
}

impl<T: Clone> Channel<T> {
    /// The per-subscriber queue capacity.
    pub open spec fn cap(self) -> nat {
        self.buffer_size as nat
    }

    /// Everything published so far, in order.
    pub open spec fn log(self) -> Seq<T> {
        self.history@
    }

    /// Channel invariant: every subscriber is coherent and identifiers are
    /// pairwise distinct.
    pub open spec fn wf(self) -> bool {
        &&& forall|i: int|
            0 <= i < self.subs@.len() ==> sub_ok(
                #[trigger] self.subs@[i],
                self.history@,
                self.cap(),
                self.next_id,
            )
        &&& forall|i: int, j: int|
            0 <= i < j < self.subs@.len() ==> (#[trigger] self.subs@[i]).id != (
            #[trigger] self.subs@[j]).id
    }

    /// Some subscriber entry answers to `id`.
    pub open spec fn has_sub(self, id: u64) -> bool {
        exists|i: int| 0 <= i < self.subs@.len() && self.subs@[i].id == id
    }

    /// A receiver's wait would end now: its queue is gone, has a value, or
    /// the producer has exited. `recv` may only be called in such a state,
    /// which is how the model renders its blocking.
    pub open spec fn recv_ready(self, id: u64) -> bool {
        forall|i: int|
            0 <= i < self.subs@.len() && (#[trigger] self.subs@[i]).id == id
                ==> self.subs@[i].queue@.len() > 0 || self.closed
    }

    /// A fresh identifier can still be issued.
    pub open spec fn can_subscribe(self) -> bool {
        self.next_id < u64::MAX
    }

    /// A new channel with the given per-subscriber queue capacity, no
    /// subscribers, and an empty history.
    pub fn new(buffer_size: usize) -> (c: Channel<T>)
        ensures
            c.wf(),
            c.buffer_size == buffer_size,
            c.subs@.len() == 0,
            c.history@.len() == 0,
            !c.closed,
            c.can_subscribe(),
    {
        Channel {
            buffer_size,
            subs: Vec::new(),
            next_id: 0,
            closed: false,
            history: Ghost(Seq::empty()),
        }
    }

    /// Appends a fresh empty queue to the subscriber set and hands back its
    /// consumer handle. The new subscriber starts at the current end of the
    /// history: it will see exactly the values published from now on.
    pub fn subscribe(&mut self) -> (r: Receiver)
        requires
            old(self).wf(),
            old(self).can_subscribe(),
        ensures
            final(self).wf(),
            subscribe_post(*old(self), *final(self), r),
    {
        let id = self.next_id;
        self.next_id = self.next_id + 1;
        let sub = Subscriber::<T> {
            id,
            queue: Vec::new(),
            joined: Ghost(self.history@.len()),
            taken: Ghost(0nat),
            received: Ghost(Seq::empty()),
        };
        self.subs.push(sub);
        Receiver { id }
    }

    /// Delivers `data` to every subscriber with room in its queue and evicts
    /// every subscriber whose queue is full, before returning. The survivors
    /// keep their order; each gets a clone of `data` appended.
    pub fn publish(&mut self, data: T)
        requires
            old(self).wf(),
            !old(self).closed,
        ensures
            final(self).wf(),
            publish_post(*old(self), *final(self), data),
    {
        let ghost orig = *self;
        let cap = self.buffer_size;
        self.history = Ghost(self.history@.push(data));
        let mut kept: Vec<Subscriber<T>> = Vec::new();
        let ghost mut done: int = 0;
        while self.subs.len() > 0
            invariant
                cap == orig.buffer_size,
                self.buffer_size == orig.buffer_size,
                self.next_id == orig.next_id,
                self.closed == orig.closed,
                self.history@ == orig.history@.push(data),
                orig.wf(),
                0 <= done <= orig.subs@.len(),
                self.subs@ == orig.subs@.subrange(done, orig.subs@.len() as int),
                kept@.len() == kept_subs(orig.subs@.subrange(0, done), orig.cap()).len(),
                forall|i: int|
                    0 <= i < kept@.len() ==> extends_with(
                        #[trigger] kept@[i],
                        kept_subs(orig.subs@.subrange(0, done), orig.cap())[i],
                        data,
                    ),
                forall|i: int|
                    0 <= i < kept@.len() ==> sub_ok(
                        #[trigger] kept@[i],
                        self.history@,
                        orig.cap(),
                        orig.next_id,
                    ),
                forall|i: int, j: int| 0 <= i < j < kept@.len() ==> kept@[i].id != kept@[j].id,
                forall|i: int, j: int|
                    0 <= i < kept@.len() && done <= j < orig.subs@.len() ==> kept@[i].id
                        != orig.subs@[j].id,
            decreases self.subs.len(),
        {
            let ghost prefix = orig.subs@.subrange(0, done);
            let mut s = self.subs.remove(0);
            let ghost s_before = s;
            proof {
                assert(s_before == orig.subs@[done]);
                assert(orig.subs@.subrange(0, done + 1) =~= prefix.push(s_before));
                assert(prefix.push(s_before).drop_last() =~= prefix);
                assert(prefix.push(s_before).last() == s_before);
                assert(self.subs@ =~= orig.subs@.subrange(done + 1, orig.subs@.len() as int));
                assert(sub_ok(s_before, orig.history@, orig.cap(), orig.next_id));
            }
            if s.queue.len() < cap {
                let item = data.clone();
                proof {
                    assert(cloned::<T>(data, item));
                    assert(kept_subs(prefix.push(s_before), orig.cap()) == kept_subs(
                        prefix,
                        orig.cap(),
                    ).push(s_before));
                }
                s.queue.push(item);
                kept.push(s);
                proof {
                    assert(extends_with(kept@.last(), s_before, data));
                    assert forall|j: int| 0 <= j < kept@.last().queue@.len() implies cloned::<T>(
                        self.history@[kept@.last().joined@ + kept@.last().taken@ + j],
                        #[trigger] kept@.last().queue@[j],
                    ) by {
                        if j < s_before.queue@.len() {
                            assert(kept@.last().queue@[j] == s_before.queue@[j]);
                        }
                    }
                    assert forall|j: int| 0 <= j < kept@.last().received@.len() implies cloned::<
                        T,
                    >(
                        self.history@[kept@.last().joined@ + j],
                        #[trigger] kept@.last().received@[j],
                    ) by {
                        assert(kept@.last().received@[j] == s_before.received@[j]);
                        assert(cloned::<T>(orig.history@[s_before.joined@ + j], s_before.received@[j]));
                    }
                    assert(sub_ok(kept@.last(), self.history@, orig.cap(), orig.next_id));
                }
            } else {
                proof {
                    assert(kept_subs(prefix.push(s_before), orig.cap()) == kept_subs(
                        prefix,
                        orig.cap(),
                    ));
                }
            }
            proof {
                done = done + 1;
            }
        }
        proof {
            assert(orig.subs@.subrange(0, done) =~= orig.subs@);
        }
        self.subs = kept;
    }

    /// Whether a recv for `id` would return now rather than wait: the
    /// handle's queue is gone, has a value, or the producer has exited.
    pub fn ready(&self, id: u64) -> (r: bool)
        requires
            self.wf(),
        ensures
            r <==> self.recv_ready(id),
    {
        let n = self.subs.len();
        let mut i: usize = 0;
        while i < n
            invariant
                self.wf(),
                n == self.subs@.len(),
                i <= n,
                forall|j: int| 0 <= j < i ==> (#[trigger] self.subs@[j]).id != id,
            decreases n - i,
        {
            if self.subs[i].id == id {
                let r = self.subs[i].queue.len() > 0 || self.closed;
                proof {
                    assert forall|k: int|
                        0 <= k < self.subs@.len() && (#[trigger] self.subs@[k]).id == id implies k
                        == i by {
                        if k < i {
                            assert(self.subs@[k].id != self.subs@[i as int].id);
                        } else if k > i {
                            assert(self.subs@[i as int].id != self.subs@[k].id);
                        }
                    }
                }
                return r;
            }
            i += 1;
        }
        true
    }

    /// Marks the producer as gone. Pending queues are kept so receivers can
    /// drain them; afterwards they see end-of-stream.
    pub fn close(&mut self)
        requires
            old(self).wf(),
        ensures
            final(self).wf(),
            final(self).closed,
            final(self).buffer_size == old(self).buffer_size,
            final(self).next_id == old(self).next_id,
            final(self).history@ == old(self).history@,
            final(self).subs@ == old(self).subs@,
    {
        self.closed = true;
    }
}

impl Receiver {
    /// Takes the oldest pending value of this receiver's queue. Returns
    /// absent when the subscriber entry is gone (evicted) or when the queue
    /// is empty and the producer has exited; by `recv_ready` those are the
    /// only states in which an empty queue is observed.
    pub fn recv<T: Clone>(&self, chan: &mut Channel<T>) -> (r: Option<T>)
        requires
            old(chan).wf(),
            old(chan).recv_ready(self.id),
        ensures
            final(chan).wf(),
            recv_post(*old(chan), *final(chan), self.id, r),
    {
        let n = chan.subs.len();
        let mut i: usize = 0;
        while i < n
            invariant
                old(chan).wf(),
                old(chan).recv_ready(self.id),
                *chan == *old(chan),
                n == chan.subs@.len(),
                i <= n,
                forall|j: int| 0 <= j < i ==> (#[trigger] chan.subs@[j]).id != self.id,
            decreases n - i,
        {
            if chan.subs[i].id == self.id {
                if chan.subs[i].queue.len() == 0 {
                    proof {
                        assert(chan.subs@[i as int].id == self.id);
                        assert(old(chan).subs@[i as int].id == self.id);
                        assert forall|k: int|
                            0 <= k < old(chan).subs@.len() && (#[trigger] old(
                                chan,
                            ).subs@[k]).id == self.id implies old(chan).subs@[k].queue@.len()
                            == 0 by {
                            assert(old(chan).wf());
                            if k < i {
                                assert(0 <= k && k < (i as int) && (i as int) < old(chan).subs@.len());
                                assert(old(chan).subs@[k].id != old(chan).subs@[i as int].id);
                            } else if k > i {
                                assert(0 <= (i as int) && (i as int) < k && k < old(chan).subs@.len());
                                assert(old(chan).subs@[i as int].id != old(chan).subs@[k].id);
                            }
                        }
                    }
                    return None;
                }
                let mut s = chan.subs.remove(i);
                let v = s.queue.remove(0);
                proof {
                    assert(sub_ok(
                        old(chan).subs@[i as int],
                        chan.history@,
                        chan.cap(),
                        chan.next_id,
                    ));
                }
                s.taken = Ghost(s.taken@ + 1);
                s.received = Ghost(s.received@.push(v));
                chan.subs.insert(i, s);
                proof {
                    assert(chan.subs@ =~= old(chan).subs@.update(i as int, chan.subs@[i as int]));
                    let s_old = old(chan).subs@[i as int];
                    let s_new = chan.subs@[i as int];
                    assert(s_new.queue@ =~= s_old.queue@.drop_first());
                    assert(s_new.received@ == s_old.received@.push(s_old.queue@[0]));
                    assert forall|j: int| 0 <= j < s_new.received@.len() implies cloned::<T>(
                        chan.history@[s_new.joined@ + j],
                        #[trigger] s_new.received@[j],
                    ) by {
                        if j < s_old.received@.len() {
                            assert(s_new.received@[j] == s_old.received@[j]);
                        } else {
                            assert(s_new.received@[j] == s_old.queue@[0]);
                            assert(cloned::<T>(
                                chan.history@[(s_old.joined@ + s_old.taken@) as int],
                                s_old.queue@[0],
                            ));
                        }
                    }
                    assert forall|j: int| 0 <= j < s_new.queue@.len() implies cloned::<T>(
                        chan.history@[s_new.joined@ + s_new.taken@ + j],
                        #[trigger] s_new.queue@[j],
                    ) by {
                        assert(s_new.queue@[j] == s_old.queue@[j + 1]);
                        assert(cloned::<T>(
                            chan.history@[s_old.joined@ + s_old.taken@ + (j + 1)],
                            s_old.queue@[j + 1],
                        ));
                    }
                }
                return Some(v);
            }
            i += 1;
        }
        None
    }
}

/// Law: a subscriber's pending queue is a gapless, in-order window of the
/// publish history, starting right after the frames it already received.
/// Together with `recv`'s contract this says each subscriber receives a
/// prefix of the frames published after it subscribed, in publish order,
/// without reordering or duplication.
pub proof fn lemma_subscriber_window<T: Clone>(chan: Channel<T>, i: int)
    requires
        chan.wf(),
        0 <= i < chan.subs@.len(),
    ensures
        ({
            let s = chan.subs@[i];
            &&& s.joined@ + s.taken@ + s.queue@.len() == chan.history@.len()
            &&& forall|j: int|
                0 <= j < s.queue@.len() ==> cloned::<T>(
                    chan.history@[s.joined@ + s.taken@ + j],
                    #[trigger] s.queue@[j],
                )
        }),
{
    assert(sub_ok(chan.subs@[i], chan.history@, chan.cap(), chan.next_id));
}

/// Law: what a subscriber has received is a contiguous prefix of the frames
/// published after it subscribed, in publish order, with nothing reordered,
/// duplicated or skipped: the ghost record `recv` appends to is exactly the
/// history from the subscriber's join point, element for element. Together
/// with `lemma_subscriber_window` this pins past and pending deliveries.
pub proof fn lemma_received_in_order<T: Clone>(chan: Channel<T>, i: int)
    requires
        chan.wf(),
        0 <= i < chan.subs@.len(),
    ensures
        ({
            let s = chan.subs@[i];
            &&& s.received@.len() == s.taken@
            &&& s.joined@ + s.received@.len() <= chan.history@.len()
            &&& forall|j: int|
                0 <= j < s.received@.len() ==> cloned::<T>(
                    chan.history@[s.joined@ + j],
                    #[trigger] s.received@[j],
                )
        }),
{
    assert(sub_ok(chan.subs@[i], chan.history@, chan.cap(), chan.next_id));
}

/// Law: once the producer has exited, no receiver can block: `recv` is
/// enabled for every handle, and returns the pending values in order
/// followed by absent.
pub proof fn lemma_recv_ready_after_close<T: Clone>(chan: Channel<T>, r: Receiver)
    requires
        chan.closed,
    ensures
        chan.recv_ready(r.id),
{
}

/// Law: after the producer has exited, a receiver never blocks and the
/// remaining deliveries are fixed: `recv` returns the oldest pending frame
/// while any remain, and absent once its queue is empty.
pub proof fn lemma_drain_after_close<T: Clone>(
    c0: Channel<T>,
    c1: Channel<T>,
    id: u64,
    r: Option<T>,
    i: int,
)
    requires
        c0.wf(),
        c0.closed,
        recv_post(c0, c1, id, r),
        0 <= i < c0.subs@.len(),
        c0.subs@[i].id == id,
    ensures
        c0.recv_ready(id),
        c0.subs@[i].queue@.len() > 0 ==> r == Some(c0.subs@[i].queue@[0]),
        c0.subs@[i].queue@.len() == 0 ==> r is None,
{
    assert(c0.subs@[i].id == id);
}

/// Every survivor of a publish is one of the old subscribers, and had room
/// in its queue.
pub proof fn lemma_kept_subs_contains<T: Clone>(subs: Seq<Subscriber<T>>, cap: nat)
    ensures
        forall|j: int|
            0 <= j < kept_subs(subs, cap).len() ==> subs.contains(#[trigger] kept_subs(subs, cap)[j])
                && kept_subs(subs, cap)[j].queue@.len() < cap,
    decreases subs.len(),
{
    if subs.len() > 0 {
        lemma_kept_subs_contains(subs.drop_last(), cap);
        assert forall|j: int| 0 <= j < kept_subs(subs, cap).len() implies subs.contains(
            #[trigger] kept_subs(subs, cap)[j],
        ) && kept_subs(subs, cap)[j].queue@.len() < cap by {
            let rest = kept_subs(subs.drop_last(), cap);
            let e = kept_subs(subs, cap)[j];
            if subs.last().queue@.len() < cap && j == rest.len() {
                assert(e == subs.last());
                assert(subs[subs.len() - 1] == subs.last());
            } else {
                assert(e == rest[j]);
                assert(subs.drop_last().contains(e));
                let w = choose|w: int|
                    0 <= w < subs.drop_last().len() && subs.drop_last()[w] == e;
                assert(subs[w] == e);
            }
        }
    }
}

/// Law: a subscriber whose queue is full at publish time is gone from the
/// subscriber set before the publish returns — no later frame is delivered
/// to it, and its handle subsequently reads end-of-stream.
pub proof fn lemma_full_subscriber_evicted<T: Clone>(subs: Seq<Subscriber<T>>, cap: nat, i: int)
    requires
        0 <= i < subs.len(),
        subs[i].queue@.len() >= cap,
        forall|a: int, b: int| 0 <= a < b < subs.len() ==> subs[a].id != subs[b].id,
    ensures
        forall|j: int|
            0 <= j < kept_subs(subs, cap).len() ==> (#[trigger] kept_subs(subs, cap)[j]).id
                != subs[i].id,
{
    lemma_kept_subs_contains(subs, cap);
    assert forall|j: int| 0 <= j < kept_subs(subs, cap).len() implies (#[trigger] kept_subs(
        subs,
        cap,
    )[j]).id != subs[i].id by {
        let e = kept_subs(subs, cap)[j];
        assert(subs.contains(e));
        let w = choose|w: int| 0 <= w < subs.len() && subs[w] == e;
        if w != i {
            if w < i {
                assert(subs[w].id != subs[i].id);
            } else {
                assert(subs[i].id != subs[w].id);
            }
        }
    }
}

} // verus!
