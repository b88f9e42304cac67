//! The ring of station connection events. The network thread only queues the
//! id of a station that connected or left, with the new number of connected
//! stations; the render thread drains the ring later. The ring keeps the
//! newest sixteen events: when it is full, the oldest one gives way.
use vstd::prelude::*;
use vstd::arithmetic::div_mod::lemma_add_mod_noop;

verus! {

/// Number of slots in the ring.
pub const CONN_EVENT_RING_SIZE: usize = 16;

/// Index mask of the ring's slots.
pub const CONN_EVENT_RING_MASK: usize = 15;

/// What happened to a station.
#[derive(Debug, Clone, Copy, PartialEq, Eq, Structural)]
pub enum ConnectionEvent {
    StationConnected,
    StationDisconnected,
}

/// An event as the ring gives it back.
#[derive(Debug, Clone, Copy, PartialEq, Eq, Structural)]
pub struct QueuedConnEvent {
    pub id: u64,
    pub event: ConnectionEvent,
    pub num_connected: usize,
}

/// The station count as the ring keeps it: the metadata word holds it above
/// the event byte, so only its low 56 bits survive.
pub open spec fn stored_count(n: usize) -> usize {
    (n as int % 0x100_0000_0000_0000) as usize
}

/// The event that a slot's metadata word holds.
pub open spec fn decode_slot(id: u64, meta: u64) -> QueuedConnEvent {
    QueuedConnEvent {
        id,
        event: if meta & 0xff == 0 {
            ConnectionEvent::StationConnected
        } else {
            ConnectionEvent::StationDisconnected
        },
        num_connected: (meta >> 8) as usize,
    }
}

/// The queue after an event was pushed: the oldest event gives way when
/// sixteen are queued already.
pub open spec fn spec_push(q: Seq<QueuedConnEvent>, e: QueuedConnEvent) -> Seq<QueuedConnEvent> {
    if q.len() >= CONN_EVENT_RING_SIZE {
        q.drop_first().push(e)
    } else {
        q.push(e)
    }
}

spec fn ring_modulus() -> int {
    usize::MAX as int + 1
}

spec fn queued_len(head: usize, tail: usize) -> int {
    vstd::wrapping::usize_specs::wrapping_sub(head, tail) as int
}

proof fn lemma_modulus_divisible()
    ensures
        ring_modulus() % 16 == 0,
{
    assert(usize::MAX == 0xffff_ffff || usize::MAX == 0xffff_ffff_ffff_ffff);
}

proof fn lemma_mask_is_mod(x: usize)
    ensures
        (x & 15) as int == x as int % 16,
{
    assert(x & 15 == x % 16) by (bit_vector);
}

proof fn lemma_step_mod(x: usize)
    ensures
        vstd::wrapping::usize_specs::wrapping_add(x, 1) as int % 16 == (x as int + 1) % 16,
{
    lemma_modulus_divisible();
}

proof fn lemma_head_slot(head: usize, tail: usize)
    ensures
        head as int % 16 == (tail as int + queued_len(head, tail)) % 16,
{
    lemma_modulus_divisible();
    if head < tail {
        lemma_add_mod_noop(head as int, ring_modulus(), 16);
        lemma_add_mod_noop(head as int, 0, 16);
    }
}

proof fn lemma_meta_round_trip(code: u64, n: u64)
    requires
        code < 2,
    ensures
        (code | (n << 8u64)) & 0xff == code,
        (code | (n << 8u64)) >> 8u64 == n % 0x100_0000_0000_0000,
{
    assert((code | (n << 8u64)) & 0xff == code) by (bit_vector)
        requires
            code < 2,
    ;
    assert((code | (n << 8u64)) >> 8u64 == n % 0x100_0000_0000_0000) by (bit_vector)
        requires
            code < 2,
    ;
}

/// The events held by slots `tail .. head` of the given slot contents.
spec fn ring_view(ids: Seq<u64>, metas: Seq<u64>, head: usize, tail: usize) -> Seq<QueuedConnEvent> {
    Seq::new(
        queued_len(head, tail) as nat,
        |i: int| decode_slot(ids[(tail as int + i) % 16], metas[(tail as int + i) % 16]),
    )
}

proof fn lemma_view_advance_tail(ids: Seq<u64>, metas: Seq<u64>, head: usize, tail: usize)
    requires
        1 <= queued_len(head, tail) <= CONN_EVENT_RING_SIZE,
    ensures
        queued_len(head, vstd::wrapping::usize_specs::wrapping_add(tail, 1)) == queued_len(head, tail) - 1,
        ring_view(ids, metas, head, vstd::wrapping::usize_specs::wrapping_add(tail, 1))
            =~= ring_view(ids, metas, head, tail).drop_first(),
{
    let t1 = vstd::wrapping::usize_specs::wrapping_add(tail, 1);
    let v0 = ring_view(ids, metas, head, tail);
    let v1 = ring_view(ids, metas, head, t1);
    lemma_step_mod(tail);
    assert forall|i: int| 0 <= i < v1.len() implies #[trigger] v1[i] == v0[i + 1] by {
        lemma_add_mod_noop(t1 as int, i, 16);
        lemma_add_mod_noop(tail as int + 1, i, 16);
    }
}

proof fn lemma_view_write_head(
    ids: Seq<u64>,
    metas: Seq<u64>,
    head: usize,
    tail: usize,
    id: u64,
    meta: u64,
)
    requires
        ids.len() == CONN_EVENT_RING_SIZE,
        metas.len() == CONN_EVENT_RING_SIZE,
        queued_len(head, tail) < CONN_EVENT_RING_SIZE,
    ensures
        queued_len(vstd::wrapping::usize_specs::wrapping_add(head, 1), tail) == queued_len(head, tail) + 1,
        ring_view(
            ids.update(head as int % 16, id),
            metas.update(head as int % 16, meta),
            vstd::wrapping::usize_specs::wrapping_add(head, 1),
            tail,
        ) =~= ring_view(ids, metas, head, tail).push(decode_slot(id, meta)),
{
    let slot = head as int % 16;
    let h1 = vstd::wrapping::usize_specs::wrapping_add(head, 1);
    let v0 = ring_view(ids, metas, head, tail);
    let v1 = ring_view(ids.update(slot, id), metas.update(slot, meta), h1, tail);
    lemma_head_slot(head, tail);
    assert forall|i: int| 0 <= i < v0.len() implies #[trigger] v1[i] == v0[i] by {
        lemma_add_mod_noop(tail as int, i, 16);
    }
    assert(v1[v0.len() as int] == decode_slot(id, meta));
}

/// The ring. `head` counts pushes and `tail` counts pops or drops, both
/// wrapping; the events queued sit in the slots from `tail` up to `head`.
pub struct ConnEventRing {
    ids: Vec<u64>,
    metas: Vec<u64>,
    head: usize,
    tail: usize,
}

impl View for ConnEventRing {
    type V = Seq<QueuedConnEvent>;

    closed spec fn view(&self) -> Seq<QueuedConnEvent> {
        ring_view(self.ids@, self.metas@, self.head, self.tail)
    }
}

impl ConnEventRing {
    /// The ring's internal consistency: sixteen slots, at most sixteen queued.
    pub closed spec fn wf(&self) -> bool {
        &&& self.ids@.len() == CONN_EVENT_RING_SIZE
        &&& self.metas@.len() == CONN_EVENT_RING_SIZE
        &&& queued_len(self.head, self.tail) <= CONN_EVENT_RING_SIZE
    }

    /// An empty ring.
    pub fn new() -> (r: Self)
        ensures
            r.wf(),
            r@ == Seq::<QueuedConnEvent>::empty(),
    {
        let mut ids: Vec<u64> = Vec::new();
        let mut metas: Vec<u64> = Vec::new();
        let mut i: usize = 0;
        while i < CONN_EVENT_RING_SIZE
            invariant
                i <= CONN_EVENT_RING_SIZE,
                ids@.len() == i,
                metas@.len() == i,
            decreases CONN_EVENT_RING_SIZE - i,
        {
            ids.push(0);
            metas.push(0);
            i = i + 1;
        }
        let r = ConnEventRing { ids, metas, head: 0, tail: 0 };
        assert(r@ =~= Seq::<QueuedConnEvent>::empty());
        r
    }

    /// Number of queued events: never more than sixteen.
    pub fn len(&self) -> (r: usize)
        requires
            self.wf(),
        ensures
            r == self@.len(),
            r <= CONN_EVENT_RING_SIZE,
    {
        self.head.wrapping_sub(self.tail)
    }

    /// Queues an event; when sixteen are queued, the oldest is dropped first,
    /// so that a lost disconnect can never leave a stale station behind.
    pub fn push_conn_event(&mut self, id: u64, event: ConnectionEvent, num_connected: usize)
        requires
            old(self).wf(),
        ensures
            final(self).wf(),
            final(self)@.len() <= CONN_EVENT_RING_SIZE,
            final(self)@ == spec_push(
                old(self)@,
                QueuedConnEvent { id, event, num_connected: stored_count(num_connected) },
            ),
    {
        let ghost q0 = self@;
        let head = self.head;
        let tail = self.tail;
        if head.wrapping_sub(tail) >= CONN_EVENT_RING_SIZE {
            proof {
                lemma_view_advance_tail(self.ids@, self.metas@, head, tail);
            }
            self.tail = tail.wrapping_add(1);
        }
        let ghost q1 = self@;
        let code: u64 = match event {
            ConnectionEvent::StationConnected => 0,
            ConnectionEvent::StationDisconnected => 1,
        };
        let meta = code | ((num_connected as u64) << 8u64);
        let slot = head & CONN_EVENT_RING_MASK;
        proof {
            lemma_mask_is_mod(head);
            lemma_meta_round_trip(code, num_connected as u64);
            lemma_view_write_head(self.ids@, self.metas@, head, self.tail, id, meta);
        }
        self.ids.set(slot, id);
        self.metas.set(slot, meta);
        self.head = head.wrapping_add(1);
        proof {
            let e = QueuedConnEvent { id, event, num_connected: stored_count(num_connected) };
            assert(decode_slot(id, meta) == e);
            assert(self@ == q1.push(e));
        }
    }

    /// Takes the oldest queued event, if any.
    pub fn pop_conn_event(&mut self) -> (r: Option<QueuedConnEvent>)
        requires
            old(self).wf(),
        ensures
            final(self).wf(),
            final(self)@.len() <= CONN_EVENT_RING_SIZE,
            old(self)@.len() == 0 ==> r is None && final(self)@ == old(self)@,
            old(self)@.len() > 0 ==> r == Some(old(self)@[0]) && final(self)@
                == old(self)@.drop_first(),
    {
        let ghost q0 = self@;
        let tail = self.tail;
        let head = self.head;
        if tail == head {
            return None;
        }
        let slot = tail & CONN_EVENT_RING_MASK;
        proof {
            lemma_mask_is_mod(tail);
            lemma_view_advance_tail(self.ids@, self.metas@, head, tail);
        }
        let meta = self.metas[slot];
        let id = self.ids[slot];
        self.tail = tail.wrapping_add(1);
        let event = if meta & 0xff == 0 {
            ConnectionEvent::StationConnected
        } else {
            ConnectionEvent::StationDisconnected
        };
        let r = QueuedConnEvent { id, event, num_connected: (meta >> 8u64) as usize };
        proof {
            assert((tail as int + 0) % 16 == slot as int);
            assert(r == q0[0]);
        }
        Some(r)
    }
}

/// The ring keeps the newest events, at most sixteen of them, in the order
/// they came; a count below 2^56 comes back as it was pushed.
pub proof fn lemma_ring_keeps_newest(q: Seq<QueuedConnEvent>, e: QueuedConnEvent, n: usize)
    requires
        q.len() <= CONN_EVENT_RING_SIZE,
    ensures
        ({
            let all = q.push(e);
            let kept = spec_push(q, e);
            &&& kept.len() == if all.len() > CONN_EVENT_RING_SIZE {
                CONN_EVENT_RING_SIZE as int
            } else {
                all.len() as int
            }
            &&& kept == all.skip(all.len() - kept.len())
            &&& kept.last() == e
        }),
        n < 0x100_0000_0000_0000 ==> stored_count(n) == n,
{
    let all = q.push(e);
    let kept = spec_push(q, e);
    assert(kept =~= all.skip(all.len() - kept.len()));
}

/// First in, first out: of a ring that held `q`, a push then a pop gives back
/// the oldest event, or the pushed one when the ring was empty.
pub proof fn lemma_ring_fifo(q: Seq<QueuedConnEvent>, e: QueuedConnEvent)
    requires
        q.len() < CONN_EVENT_RING_SIZE,
    ensures
        spec_push(q, e)[0] == if q.len() == 0 {
            e
        } else {
            q[0]
        },
        spec_push(q, e).drop_first() == spec_push(q.drop_first(), e) || q.len() == 0,
{
    if q.len() > 0 {
        assert(spec_push(q, e).drop_first() =~= spec_push(q.drop_first(), e));
    }
}

/// A consistent ring never holds more than sixteen events.
pub proof fn lemma_ring_bounded(ring: &ConnEventRing)
    requires
        ring.wf(),
    ensures
        ring@.len() <= CONN_EVENT_RING_SIZE,
{
}

} // verus!
