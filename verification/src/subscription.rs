//! Subscription registry: fan-out delivery of events to live consumers.
//!
//! Every subscriber owns an independent, bounded buffer of pending events.
//! Broadcasting delivers one event to every connected subscriber; a full
//! buffer is handled by the drop-oldest overflow policy, so a slow consumer
//! never blocks the broadcaster or its peers. A subscriber whose consumer
//! side has disconnected is reclaimed by the next broadcast without any
//! notification from the dispatch loop.
//!
//! The mathematical model of a subscriber keeps three ghost histories: the
//! events ever placed in its buffer (`delivered`), the events removed from
//! the buffer's front (`taken`, whether consumed or dropped on overflow),
//! and the index of the broadcast log at which the subscriber joined. The
//! registry invariant ties them together: a connected subscriber's
//! `delivered` history is exactly the broadcast log since it joined — every
//! event once, in order.

use vstd::prelude::*;

use crate::event::CoreEvent;

verus! {

/// Mathematical model of one [`Subscription`].
#[verifier::ext_equal]
pub struct SubscriptionView {
    /// Identifier handed to the consumer at registration.
    pub id: u64,
    /// Whether the consumer side is still attached.
    pub connected: bool,
    /// Events delivered but not yet removed, oldest first.
    pub buffer: Seq<CoreEvent>,
    /// Every event ever placed in the buffer, oldest first.
    pub delivered: Seq<CoreEvent>,
    /// Every event removed from the buffer's front, whether consumed by the
    /// subscriber or dropped by the overflow policy.
    pub taken: Seq<CoreEvent>,
    /// Length of the registry's broadcast log at registration time.
    pub joined_at: nat,
}

/// Mathematical model of the [`SubscriptionRegistry`].
#[verifier::ext_equal]
pub struct RegistryView {
    /// Per-subscriber buffer bound; at least one.
    pub capacity: nat,
    /// Next identifier to hand out.
    pub next_id: u64,
    /// The live subscriptions, in registration order.
    pub subs: Seq<SubscriptionView>,
    /// Every event ever broadcast, in broadcast order.
    pub log: Seq<CoreEvent>,
}

/// One live consumer's receive path.
pub struct Subscription {
    id: u64,
    connected: bool,
    buffer: Vec<CoreEvent>,
    delivered: Ghost<Seq<CoreEvent>>,
    taken: Ghost<Seq<CoreEvent>>,
    joined_at: Ghost<nat>,
}

impl View for Subscription {
    type V = SubscriptionView;

    closed spec fn view(&self) -> SubscriptionView {
        SubscriptionView {
            id: self.id,
            connected: self.connected,
            buffer: self.buffer@,
            delivered: self.delivered@,
            taken: self.taken@,
            joined_at: self.joined_at@,
        }
    }
}

impl SubscriptionView {
    /// Local well-formedness of one subscriber against the broadcast log it
    /// belongs to: the buffer respects the bound, the histories balance, and
    /// a connected subscriber has been handed exactly the log since it
    /// joined.
    pub open spec fn wf(self, log: Seq<CoreEvent>, capacity: nat) -> bool {
        &&& self.buffer.len() <= capacity
        &&& self.delivered == self.taken + self.buffer
        &&& self.joined_at <= log.len()
        &&& (self.connected ==> self.delivered == log.skip(self.joined_at as int))
    }
}

/// What delivering `e` does to one subscriber's model: append to the buffer,
/// and when the buffer is already at capacity, first drop its oldest entry
/// (the drop-oldest overflow policy).
pub open spec fn deliver_view(s: SubscriptionView, e: CoreEvent, capacity: nat) -> SubscriptionView {
    if s.buffer.len() < capacity {
        SubscriptionView {
            buffer: s.buffer.push(e),
            delivered: s.delivered.push(e),
            ..s
        }
    } else {
        SubscriptionView {
            buffer: s.buffer.drop_first().push(e),
            delivered: s.delivered.push(e),
            taken: s.taken.push(s.buffer[0]),
            ..s
        }
    }
}

/// The per-subscriber effect of one broadcast: a disconnected subscriber is
/// reclaimed (dropped from the registry), a connected one receives the event.
pub open spec fn deliver_or_drop(e: CoreEvent, capacity: nat) -> spec_fn(SubscriptionView) -> Option<
    SubscriptionView,
> {
    |s: SubscriptionView|
        if s.connected {
            Some(deliver_view(s, e, capacity))
        } else {
            None
        }
}

/// What one broadcast does to the whole registry model: the event is
/// appended to the log, disconnected subscribers are reclaimed, and every
/// remaining subscriber receives the event.
pub open spec fn broadcast_view(r: RegistryView, e: CoreEvent) -> RegistryView {
    RegistryView {
        subs: r.subs.filter_map(deliver_or_drop(e, r.capacity)),
        log: r.log.push(e),
        ..r
    }
}

impl RegistryView {
    /// Registry invariant: a positive buffer bound, fresh identifiers ahead
    /// of every handed-out one, and every subscriber locally well-formed.
    pub open spec fn wf(self) -> bool {
        &&& self.capacity >= 1
        &&& forall|i: int|
            0 <= i < self.subs.len() ==> (#[trigger] self.subs[i]).wf(self.log, self.capacity)
        &&& forall|i: int| 0 <= i < self.subs.len() ==> (#[trigger] self.subs[i]).id < self.next_id
    }
}

/// Tracks the currently-connected event consumers and performs fan-out
/// delivery with bounded, drop-oldest per-subscriber buffers.
pub struct SubscriptionRegistry {
    capacity: usize,
    next_id: u64,
    subs: Vec<Subscription>,
    log: Ghost<Seq<CoreEvent>>,
}

impl View for SubscriptionRegistry {
    type V = RegistryView;

    closed spec fn view(&self) -> RegistryView {
        RegistryView {
            capacity: self.capacity as nat,
            next_id: self.next_id,
            subs: self.subs@.map_values(|s: Subscription| s@),
            log: self.log@,
        }
    }
}

impl Subscription {
    /// Place one event in this subscriber's buffer, dropping the oldest
    /// entry first when the buffer is at capacity.
    fn deliver(&mut self, e: CoreEvent, capacity: usize)
        requires
            old(self)@.buffer.len() <= capacity,
            capacity >= 1,
        ensures
            final(self)@ == deliver_view(old(self)@, e, capacity as nat),
    {
        self.delivered = Ghost(self.delivered@.push(e));
        if self.buffer.len() == capacity {
            let oldest = self.buffer.remove(0);
            self.taken = Ghost(self.taken@.push(oldest));
        }
        self.buffer.push(e);
    }

    /// Hand out the oldest buffered event.
    fn take_front(&mut self) -> (r: CoreEvent)
        requires
            old(self)@.buffer.len() > 0,
        ensures
            r == old(self)@.buffer[0],
            final(self)@ == (SubscriptionView {
                buffer: old(self)@.buffer.drop_first(),
                taken: old(self)@.taken.push(old(self)@.buffer[0]),
                ..old(self)@
            }),
    {
        let ev = self.buffer.remove(0);
        self.taken = Ghost(self.taken@.push(ev));
        ev
    }

    /// Note that the consumer side has gone away.
    fn mark_disconnected(&mut self)
        ensures
            final(self)@ == (SubscriptionView { connected: false, ..old(self)@ }),
    {
        self.connected = false;
    }
}

impl SubscriptionRegistry {
    /// An empty registry with the given per-subscriber buffer bound.
    pub fn new(capacity: usize) -> (r: SubscriptionRegistry)
        requires
            capacity >= 1,
        ensures
            r@.wf(),
            r@.capacity == capacity,
            r@.subs == Seq::<SubscriptionView>::empty(),
            r@.next_id == 0,
            r@.log == Seq::<CoreEvent>::empty(),
    {
        SubscriptionRegistry {
            capacity,
            next_id: 0,
            subs: Vec::new(),
            log: Ghost(Seq::empty()),
        }
    }

    /// Add a new, independent receive path to the broadcast set and hand its
    /// identifier back. The new subscriber starts with an empty buffer and
    /// sees only events broadcast from this moment on — no replay.
    pub fn register(&mut self) -> (id: u64)
        requires
            old(self)@.wf(),
            old(self)@.next_id < u64::MAX,
        ensures
            final(self)@.wf(),
            id == old(self)@.next_id,
            final(self)@.next_id == old(self)@.next_id + 1,
            final(self)@.capacity == old(self)@.capacity,
            final(self)@.log == old(self)@.log,
            final(self)@.subs == old(self)@.subs.push(
                (SubscriptionView {
                    id: old(self)@.next_id,
                    connected: true,
                    buffer: Seq::empty(),
                    delivered: Seq::empty(),
                    taken: Seq::empty(),
                    joined_at: old(self)@.log.len(),
                }),
            ),
    {
        let id = self.next_id;
        let sub = Subscription {
            id,
            connected: true,
            buffer: Vec::new(),
            delivered: Ghost(Seq::empty()),
            taken: Ghost(Seq::empty()),
            joined_at: Ghost(self.log@.len()),
        };
        self.next_id = self.next_id + 1;
        self.subs.push(sub);
        proof {
            assert(self@.subs =~= old(self)@.subs.push(
                (SubscriptionView {
                    id: old(self)@.next_id,
                    connected: true,
                    buffer: Seq::empty(),
                    delivered: Seq::empty(),
                    taken: Seq::empty(),
                    joined_at: old(self)@.log.len(),
                }),
            ));
            assert(old(self)@.log.skip(old(self)@.log.len() as int) =~= Seq::<CoreEvent>::empty());
        }
        id
    }

    /// Deliver one event to every connected subscriber, dropping the oldest
    /// buffered entry of any subscriber already at capacity, and reclaim
    /// every subscriber whose consumer side has disconnected. Delivery to
    /// each subscriber is independent: a full or slow subscriber never
    /// affects another one, and nothing blocks the broadcaster.
    pub fn broadcast(&mut self, e: &CoreEvent)
        requires
            old(self)@.wf(),
        ensures
            final(self)@.wf(),
            final(self)@ == broadcast_view(old(self)@, *e),
            forall|i: int|
                0 <= i < final(self)@.subs.len() ==> (#[trigger] final(self)@.subs[i]).connected,
    {
        let ghost r0 = self@;
        let ghost f = deliver_or_drop(*e, r0.capacity);
        let ghost le = r0.log.push(*e);
        let mut i: usize = 0;
        let ghost mut k: int = 0;
        while i < self.subs.len()
            invariant
                0 <= k <= r0.subs.len(),
                i as int == r0.subs.take(k).filter_map(f).len(),
                self@.capacity == r0.capacity,
                self@.next_id == r0.next_id,
                self@.log == r0.log,
                self@.subs == r0.subs.take(k).filter_map(f) + r0.subs.skip(k),
                r0.capacity >= 1,
                f == deliver_or_drop(*e, r0.capacity),
                le == r0.log.push(*e),
                forall|j: int|
                    0 <= j < r0.subs.len() ==> (#[trigger] r0.subs[j]).wf(r0.log, r0.capacity),
                forall|j: int| 0 <= j < r0.subs.len() ==> (#[trigger] r0.subs[j]).id < r0.next_id,
                forall|j: int|
                    0 <= j < i ==> (#[trigger] self@.subs[j]).wf(le, r0.capacity)
                        && self@.subs[j].connected && self@.subs[j].id < r0.next_id,
            decreases r0.subs.len() - k,
        {
            let ghost entry = self@.subs;
            let ghost prefix = r0.subs.take(k).filter_map(f);
            proof {
                assert(entry[i as int] == r0.subs.skip(k)[0]);
                assert(r0.subs.skip(k)[0] == r0.subs[k]);
            }
            let connected = self.subs[i].connected;
            if connected {
                let capacity = self.capacity;
                let sub = &mut self.subs[i];
                sub.deliver(e.clone(), capacity);
                proof {
                    let d = deliver_view(r0.subs[k], *e, r0.capacity);
                    assert(f(r0.subs[k]) == Some(d));
                    r0.subs.lemma_filter_map_take_succ(f, k);
                    assert(r0.subs.take(k + 1).filter_map(f) =~= prefix + seq![d]);
                    lemma_deliver_wf(r0.subs[k], *e, r0.log, r0.capacity);
                    assert(self@.subs =~= entry.update(i as int, d));
                    assert(r0.subs.skip(k)[0] == r0.subs[k]);
                    assert(forall|m: int|
                        1 <= m < r0.subs.skip(k).len() ==> r0.subs.skip(k)[m] == #[trigger] r0.subs.skip(
                            k + 1,
                        )[m - 1]);
                    assert(self@.subs =~= r0.subs.take(k + 1).filter_map(f) + r0.subs.skip(k + 1));
                    k = k + 1;
                }
                i = i + 1;
            } else {
                let _gone = self.subs.remove(i);
                proof {
                    assert(f(r0.subs[k]) is None);
                    r0.subs.lemma_filter_map_take_succ(f, k);
                    assert(r0.subs.take(k + 1).filter_map(f) =~= prefix);
                    assert(self@.subs =~= entry.remove(i as int));
                    assert(forall|m: int|
                        1 <= m < r0.subs.skip(k).len() ==> r0.subs.skip(k)[m] == #[trigger] r0.subs.skip(
                            k + 1,
                        )[m - 1]);
                    assert(self@.subs =~= r0.subs.take(k + 1).filter_map(f) + r0.subs.skip(k + 1));
                    k = k + 1;
                }
            }
        }
        proof {
            assert(k == r0.subs.len());
            assert(r0.subs.take(k) =~= r0.subs);
        }
        self.log = Ghost(self.log@.push(*e));
        proof {
            assert(self@.subs =~= r0.subs.filter_map(f));
            assert(self@ =~= broadcast_view(r0, *e));
        }
    }

    /// Hand the consumer with this identifier its oldest pending event.
    /// Yields nothing when the identifier is unknown (never registered, or
    /// already reclaimed) or when the buffer is currently empty.
    pub fn recv(&mut self, id: u64) -> (r: Option<CoreEvent>)
        requires
            old(self)@.wf(),
        ensures
            final(self)@.wf(),
            ({
                let ix = sub_index(old(self)@.subs, id);
                if ix == -1 || old(self)@.subs[ix].buffer.len() == 0 {
                    &&& r is None
                    &&& final(self)@ == old(self)@
                } else {
                    let s = old(self)@.subs[ix];
                    &&& r == Some(s.buffer[0])
                    &&& final(self)@ == (RegistryView {
                        subs: old(self)@.subs.update(
                            ix,
                            (SubscriptionView {
                                buffer: s.buffer.drop_first(),
                                taken: s.taken.push(s.buffer[0]),
                                ..s
                            }),
                        ),
                        ..old(self)@
                    })
                }
            }),
    {
        let mut i: usize = 0;
        while i < self.subs.len()
            invariant
                self@ == old(self)@,
                old(self)@.wf(),
                0 <= i <= self@.subs.len(),
                forall|j: int| 0 <= j < i ==> (#[trigger] self@.subs[j]).id != id,
            decreases self@.subs.len() - i,
        {
            if self.subs[i].id == id {
                proof {
                    lemma_sub_index_first(self@.subs, id, i as int);
                }
                if self.subs[i].buffer.len() == 0 {
                    return None;
                }
                let ghost s0 = self@.subs[i as int];
                let sub = &mut self.subs[i];
                let ev = sub.take_front();
                proof {
                    let s1 = (SubscriptionView {
                        buffer: s0.buffer.drop_first(),
                        taken: s0.taken.push(s0.buffer[0]),
                        ..s0
                    });
                    assert(self@.subs =~= old(self)@.subs.update(i as int, s1));
                    assert(s1.taken + s1.buffer =~= s0.taken + s0.buffer);
                    assert(self@ =~= (RegistryView {
                        subs: old(self)@.subs.update(i as int, s1),
                        ..old(self)@
                    }));
                }
                return Some(ev);
            }
            i = i + 1;
        }
        proof {
            lemma_sub_index_absent(self@.subs, id);
        }
        None
    }

    /// Note that the consumer with this identifier has disconnected. The
    /// entry receives nothing further and is reclaimed by the next
    /// broadcast; no notification from the dispatch loop is needed.
    pub fn disconnect(&mut self, id: u64)
        requires
            old(self)@.wf(),
        ensures
            final(self)@.wf(),
            ({
                let ix = sub_index(old(self)@.subs, id);
                if ix == -1 {
                    final(self)@ == old(self)@
                } else {
                    final(self)@ == (RegistryView {
                        subs: old(self)@.subs.update(
                            ix,
                            (SubscriptionView { connected: false, ..old(self)@.subs[ix] }),
                        ),
                        ..old(self)@
                    })
                }
            }),
    {
        let mut i: usize = 0;
        while i < self.subs.len()
            invariant
                self@ == old(self)@,
                old(self)@.wf(),
                0 <= i <= self@.subs.len(),
                forall|j: int| 0 <= j < i ==> (#[trigger] self@.subs[j]).id != id,
            decreases self@.subs.len() - i,
        {
            if self.subs[i].id == id {
                proof {
                    lemma_sub_index_first(self@.subs, id, i as int);
                }
                let ghost s0 = self@.subs[i as int];
                let sub = &mut self.subs[i];
                sub.mark_disconnected();
                proof {
                    let s1 = (SubscriptionView { connected: false, ..s0 });
                    assert(self@.subs =~= old(self)@.subs.update(i as int, s1));
                    assert(self@ =~= (RegistryView {
                        subs: old(self)@.subs.update(i as int, s1),
                        ..old(self)@
                    }));
                }
                return ;
            }
            i = i + 1;
        }
        proof {
            lemma_sub_index_absent(self@.subs, id);
        }
    }

    /// Drop every subscription at once: used when the dispatch loop
    /// terminates and all open streams close.
    pub fn close_all(&mut self)
        ensures
            final(self)@ == (RegistryView { subs: Seq::empty(), ..old(self)@ }),
            old(self)@.wf() ==> final(self)@.wf(),
    {
        self.subs.clear();
        proof {
            assert(self@ =~= (RegistryView { subs: Seq::empty(), ..old(self)@ }));
        }
    }

    /// Number of entries currently in the broadcast set.
    pub fn subscriber_count(&self) -> (n: usize)
        ensures
            n == self@.subs.len(),
    {
        self.subs.len()
    }

    /// The per-subscriber buffer bound this registry was created with.
    pub fn buffer_capacity(&self) -> (c: usize)
        ensures
            c == self@.capacity,
    {
        self.capacity
    }

    /// The identifier the next registration would receive; lets a caller
    /// test that identifiers are not exhausted before registering.
    pub fn next_handle(&self) -> (id: u64)
        ensures
            id == self@.next_id,
    {
        self.next_id
    }
}

/// Law of exact fan-out: a subscriber that registered and is still
/// connected has been handed every event broadcast since it joined,
/// exactly once, in broadcast order — its delivered history is exactly the
/// broadcast log from the moment it joined. While none of those events has
/// been consumed or dropped, its buffer holds exactly that suffix.
pub proof fn lemma_subscriber_receives_every_broadcast(r: SubscriptionRegistry, i: int)
    requires
        r@.wf(),
        0 <= i < r@.subs.len(),
        r@.subs[i].connected,
    ensures
        r@.subs[i].delivered == r@.log.skip(r@.subs[i].joined_at as int),
        r@.subs[i].taken.len() == 0 ==> r@.subs[i].buffer == r@.log.skip(
            r@.subs[i].joined_at as int,
        ),
{
    assert(r@.subs[i].wf(r@.log, r@.capacity));
    if r@.subs[i].taken.len() == 0 {
        assert(r@.subs[i].taken + r@.subs[i].buffer =~= r@.subs[i].buffer);
    }
}

/// While every subscriber is connected, a broadcast keeps them all and
/// delivers to each one independently, in place: subscriber `j` afterwards
/// is exactly subscriber `j` before with the event appended to its buffer
/// (oldest entry dropped first when it was full).
pub proof fn lemma_broadcast_all_connected(r: RegistryView, e: CoreEvent)
    requires
        forall|j: int| 0 <= j < r.subs.len() ==> (#[trigger] r.subs[j]).connected,
    ensures
        broadcast_view(r, e).subs.len() == r.subs.len(),
        forall|j: int|
            0 <= j < r.subs.len() ==> #[trigger] broadcast_view(r, e).subs[j] == deliver_view(
                r.subs[j],
                e,
                r.capacity,
            ),
{
    lemma_filter_map_all_connected(r.subs, e, r.capacity);
}

/// Pointwise effect of `filter_map(deliver_or_drop(..))` on a sequence of
/// connected subscribers.
proof fn lemma_filter_map_all_connected(subs: Seq<SubscriptionView>, e: CoreEvent, capacity: nat)
    requires
        forall|j: int| 0 <= j < subs.len() ==> (#[trigger] subs[j]).connected,
    ensures
        subs.filter_map(deliver_or_drop(e, capacity)).len() == subs.len(),
        forall|j: int|
            0 <= j < subs.len() ==> #[trigger] subs.filter_map(deliver_or_drop(e, capacity))[j]
                == deliver_view(subs[j], e, capacity),
    decreases subs.len(),
{
    let f = deliver_or_drop(e, capacity);
    if subs.len() > 0 {
        let rest = subs.drop_last();
        lemma_filter_map_all_connected(rest, e, capacity);
        assert(f(subs.last()) == Some(deliver_view(subs.last(), e, capacity)));
        assert(subs.filter_map(f) == rest.filter_map(f) + seq![deliver_view(
            subs.last(),
            e,
            capacity,
        )]);
    }
}

/// Index of the first subscription carrying this identifier, or `-1` when
/// none does.
pub open spec fn sub_index(subs: Seq<SubscriptionView>, id: u64) -> int
    decreases subs.len(),
{
    if subs.len() == 0 {
        -1
    } else if subs[0].id == id {
        0
    } else if sub_index(subs.drop_first(), id) == -1 {
        -1
    } else {
        sub_index(subs.drop_first(), id) + 1
    }
}

/// `sub_index` names the first match: a position whose earlier entries all
/// carry other identifiers is the one `sub_index` picks.
proof fn lemma_sub_index_first(subs: Seq<SubscriptionView>, id: u64, m: int)
    requires
        0 <= m < subs.len(),
        subs[m].id == id,
        forall|j: int| 0 <= j < m ==> (#[trigger] subs[j]).id != id,
    ensures
        sub_index(subs, id) == m,
    decreases subs.len(),
{
    if m > 0 {
        lemma_sub_index_first(subs.drop_first(), id, m - 1);
    }
}

/// When no subscription carries the identifier, `sub_index` reports none.
proof fn lemma_sub_index_absent(subs: Seq<SubscriptionView>, id: u64)
    requires
        forall|j: int| 0 <= j < subs.len() ==> (#[trigger] subs[j]).id != id,
    ensures
        sub_index(subs, id) == -1,
    decreases subs.len(),
{
    if subs.len() > 0 {
        lemma_sub_index_absent(subs.drop_first(), id);
    }
}

/// Delivering one event to a well-formed subscriber leaves it well formed
/// against the broadcast log extended by that event.
proof fn lemma_deliver_wf(s: SubscriptionView, e: CoreEvent, log: Seq<CoreEvent>, capacity: nat)
    requires
        s.wf(log, capacity),
        capacity >= 1,
    ensures
        deliver_view(s, e, capacity).wf(log.push(e), capacity),
{
    let d = deliver_view(s, e, capacity);
    assert(d.delivered =~= d.taken + d.buffer);
    if s.connected {
        assert(s.delivered.push(e) =~= log.push(e).skip(s.joined_at as int));
    }
}

} // verus!
