//! The table of connected stations and the extended information each one
//! sent. Connection events change the synchronised table, which is then
//! published whole; incoming packets update the published copy in place, and
//! the lookups read the published copy.
use vstd::prelude::*;
use crate::packet::{PiaCommsError, PiaCustomNetPacket, normalize_and_parse_data, spec_parse};
use crate::conn_ring::{ConnEventRing, ConnectionEvent, QueuedConnEvent};

verus! {

/// What the plugin knows of one connected station.
#[derive(Debug, Clone, Copy, PartialEq, Eq, Structural)]
pub struct StationNetInfo {
    pub id: u64,
    pub is_valid_comms: bool,
    pub latency_bits: u8,
    pub render_profile_settings_bits: u16,
}

/// Whether an entry is the station `id` (and, when asked, has sent a valid packet).
pub open spec fn station_matches(s: StationNetInfo, id: u64, need_valid: bool) -> bool {
    s.id == id && (need_valid ==> s.is_valid_comms)
}

/// Whether some entry matches.
pub open spec fn has_match(s: Seq<StationNetInfo>, id: u64, need_valid: bool) -> bool {
    exists|i: int| 0 <= i < s.len() && #[trigger] station_matches(s[i], id, need_valid)
}

/// Whether `i` is the first matching entry.
pub open spec fn is_first_match(s: Seq<StationNetInfo>, id: u64, need_valid: bool, i: int) -> bool {
    &&& 0 <= i < s.len()
    &&& station_matches(s[i], id, need_valid)
    &&& forall|j: int| 0 <= j < i ==> !#[trigger] station_matches(s[j], id, need_valid)
}

/// The first matching entry (meaningful when `has_match`).
pub open spec fn first_match(s: Seq<StationNetInfo>, id: u64, need_valid: bool) -> int {
    choose|i: int| is_first_match(s, id, need_valid, i)
}

/// The latency a station reported, if it is known and has sent a valid packet.
pub open spec fn spec_latency(s: Seq<StationNetInfo>, id: u64) -> Option<u8> {
    if has_match(s, id, true) {
        Some(s[first_match(s, id, true)].latency_bits)
    } else {
        None
    }
}

/// The render settings a modded station reported, if it has sent a valid packet.
pub open spec fn spec_settings(s: Seq<StationNetInfo>, id: u64, is_modded: bool) -> Option<u16> {
    if is_modded && has_match(s, id, true) {
        Some(s[first_match(s, id, true)].render_profile_settings_bits)
    } else {
        None
    }
}

/// The table after a connection event: a new station is appended with no
/// valid comms yet; a leaving one loses its first entry.
pub open spec fn spec_apply_event(
    s: Seq<StationNetInfo>,
    id: u64,
    event: ConnectionEvent,
    initial_latency_bits: u8,
    initial_settings_bits: u16,
) -> Seq<StationNetInfo> {
    match event {
        ConnectionEvent::StationConnected => s.push(
            StationNetInfo {
                id,
                is_valid_comms: false,
                latency_bits: initial_latency_bits,
                render_profile_settings_bits: initial_settings_bits,
            },
        ),
        ConnectionEvent::StationDisconnected => if has_match(s, id, false) {
            s.remove(first_match(s, id, false))
        } else {
            s
        },
    }
}

/// What became of an incoming packet.
#[derive(Debug, Clone, Copy, PartialEq, Eq, Structural)]
pub enum ReceiveOutcome {
    /// A packet whose first byte is 0, as a peer sends that does not share its information.
    Ignored,
    /// The sender is not in the table.
    UnknownStation,
    /// The packet was stored for the sender.
    Stored(PiaCustomNetPacket),
    /// The packet could not be decoded.
    Rejected(PiaCommsError),
}

/// What receiving a packet yields: its outcome.
pub open spec fn spec_receive_outcome(s: Seq<StationNetInfo>, id: u64, data: Seq<u8>) -> ReceiveOutcome {
    if data.len() > 0 && data[0] == 0 {
        ReceiveOutcome::Ignored
    } else if !has_match(s, id, false) {
        ReceiveOutcome::UnknownStation
    } else {
        match spec_parse(data) {
            Ok(p) => ReceiveOutcome::Stored(p),
            Err(e) => ReceiveOutcome::Rejected(e),
        }
    }
}

/// The table after receiving a packet: a stored packet marks the sender's
/// first entry valid and records its latency and settings.
pub open spec fn spec_receive_table(s: Seq<StationNetInfo>, id: u64, data: Seq<u8>) -> Seq<
    StationNetInfo,
> {
    match spec_receive_outcome(s, id, data) {
        ReceiveOutcome::Stored(p) => {
            let k = first_match(s, id, false);
            s.update(
                k,
                StationNetInfo {
                    id: s[k].id,
                    is_valid_comms: true,
                    latency_bits: p.latency_bits,
                    render_profile_settings_bits: p.render_profile_settings_bits,
                },
            )
        },
        _ => s,
    }
}

/// At most one entry is the first match.
pub proof fn lemma_first_match_unique(s: Seq<StationNetInfo>, id: u64, need_valid: bool, i: int)
    requires
        is_first_match(s, id, need_valid, i),
    ensures
        has_match(s, id, need_valid),
        first_match(s, id, need_valid) == i,
{
    assert(station_matches(s[i], id, need_valid));
    let k = first_match(s, id, need_valid);
    assert(is_first_match(s, id, need_valid, k));
    if k < i {
        assert(!station_matches(s[k], id, need_valid));
    }
    if i < k {
        assert(!station_matches(s[i], id, need_valid));
    }
}

proof fn lemma_first_match_from(s: Seq<StationNetInfo>, id: u64, need_valid: bool, i: int)
    requires
        0 <= i,
        has_match(s, id, need_valid),
        forall|j: int| 0 <= j < i ==> !#[trigger] station_matches(s[j], id, need_valid),
    ensures
        is_first_match(s, id, need_valid, first_match(s, id, need_valid)),
    decreases s.len() - i,
{
    let w = choose|w: int| 0 <= w < s.len() && #[trigger] station_matches(s[w], id, need_valid);
    assert(station_matches(s[w], id, need_valid));
    if station_matches(s[i], id, need_valid) && i < s.len() {
        assert(is_first_match(s, id, need_valid, i));
    } else {
        assert(i != w);
        assert(i < w) by {
            if w < i {
                assert(!station_matches(s[w], id, need_valid));
            }
        }
        lemma_first_match_from(s, id, need_valid, i + 1);
    }
}

/// When some entry matches, `first_match` is the first of them.
pub proof fn lemma_first_match_exists(s: Seq<StationNetInfo>, id: u64, need_valid: bool)
    requires
        has_match(s, id, need_valid),
    ensures
        is_first_match(s, id, need_valid, first_match(s, id, need_valid)),
{
    lemma_first_match_from(s, id, need_valid, 0);
}

fn find_station(stations: &Vec<StationNetInfo>, id: u64, need_valid: bool) -> (r: Option<usize>)
    ensures
        match r {
            Some(i) => is_first_match(stations@, id, need_valid, i as int) && first_match(
                stations@,
                id,
                need_valid,
            ) == i,
            None => !has_match(stations@, id, need_valid),
        },
{
    let mut i: usize = 0;
    while i < stations.len()
        invariant
            i <= stations@.len(),
            forall|j: int| 0 <= j < i ==> !#[trigger] station_matches(stations@[j], id, need_valid),
        decreases stations@.len() - i,
    {
        let s = stations[i];
        if s.id == id && (!need_valid || s.is_valid_comms) {
            proof {
                assert(station_matches(stations@[i as int], id, need_valid));
                lemma_first_match_unique(stations@, id, need_valid, i as int);
            }
            return Some(i);
        }
        i = i + 1;
    }
    None
}

/// No entry holds a valid packet.
pub open spec fn no_valid_entry(s: Seq<StationNetInfo>) -> bool {
    forall|i: int| 0 <= i < s.len() ==> !#[trigger] s[i].is_valid_comms
}

/// The two copies of the station table.
pub struct StationRegistry {
    synced: Vec<StationNetInfo>,
    published: Vec<StationNetInfo>,
}

impl StationRegistry {
    /// Packets only ever reach the published copy, so the synchronised one
    /// never holds a valid entry.
    #[verifier::type_invariant]
    spec fn synced_never_valid(self) -> bool {
        no_valid_entry(self.synced@)
    }

    /// The table that connection events edit.
    pub closed spec fn synced(&self) -> Seq<StationNetInfo> {
        self.synced@
    }

    /// The table that lookups and incoming packets use.
    pub closed spec fn published(&self) -> Seq<StationNetInfo> {
        self.published@
    }

    /// No station yet.
    pub fn new() -> (r: Self)
        ensures
            r.synced() == Seq::<StationNetInfo>::empty(),
            r.published() == Seq::<StationNetInfo>::empty(),
            no_valid_entry(r.synced()),
    {
        StationRegistry { synced: Vec::new(), published: Vec::new() }
    }

    /// The published table, as a copy.
    pub fn published_stations(&self) -> (r: Vec<StationNetInfo>)
        ensures
            r@ == self.published(),
    {
        self.published.clone()
    }

    /// Applies a connection event to the synchronised table, then publishes it whole.
    pub fn apply_connection_event(
        &mut self,
        id: u64,
        event: ConnectionEvent,
        initial_latency_bits: u8,
        initial_settings_bits: u16,
    )
        ensures
            final(self).synced() == spec_apply_event(
                old(self).synced(),
                id,
                event,
                initial_latency_bits,
                initial_settings_bits,
            ),
            final(self).published() == final(self).synced(),
            no_valid_entry(final(self).synced()),
            no_valid_entry(final(self).published()),
    {
        proof {
            use_type_invariant(&*self);
        }
        let ghost s0 = self.synced@;
        let mut synced: Vec<StationNetInfo> = Vec::new();
        std::mem::swap(&mut synced, &mut self.synced);
        match event {
            ConnectionEvent::StationConnected => {
                synced.push(
                    StationNetInfo {
                        id,
                        is_valid_comms: false,
                        latency_bits: initial_latency_bits,
                        render_profile_settings_bits: initial_settings_bits,
                    },
                );
            },
            ConnectionEvent::StationDisconnected => {
                match find_station(&synced, id, false) {
                    Some(i) => {
                        synced.remove(i);
                        assert forall|j: int| 0 <= j < synced@.len() implies !#[trigger] synced@[j].is_valid_comms by {
                            if j < i {
                                assert(synced@[j] == s0[j]);
                            } else {
                                assert(synced@[j] == s0[j + 1]);
                            }
                        }
                    },
                    None => {},
                }
            },
        }
        assert(no_valid_entry(synced@));
        self.published = synced.clone();
        assert(self.published@ =~= synced@);
        self.synced = synced;
    }

    /// The synchronised table never holds a valid entry.
    pub fn synced_has_no_valid_entry(&self)
        ensures
            no_valid_entry(self.synced()),
    {
        proof {
            use_type_invariant(self);
        }
    }

    /// Records an incoming packet from station `id` in the published table.
    pub fn receive_pia_data(&mut self, id: u64, data: &[u8]) -> (r: ReceiveOutcome)
        ensures
            r == spec_receive_outcome(old(self).published(), id, data@),
            final(self).published() == spec_receive_table(old(self).published(), id, data@),
            final(self).synced() == old(self).synced(),
            no_valid_entry(final(self).synced()),
    {
        proof {
            use_type_invariant(&*self);
        }
        if data.len() > 0 && data[0] == 0 {
            return ReceiveOutcome::Ignored;
        }
        let k = match find_station(&self.published, id, false) {
            Some(k) => k,
            None => return ReceiveOutcome::UnknownStation,
        };
        match normalize_and_parse_data(data) {
            Ok(p) => {
                let mut published: Vec<StationNetInfo> = Vec::new();
                std::mem::swap(&mut published, &mut self.published);
                let old_entry = published[k];
                published.set(
                    k,
                    StationNetInfo {
                        id: old_entry.id,
                        is_valid_comms: true,
                        latency_bits: p.latency_bits,
                        render_profile_settings_bits: p.render_profile_settings_bits,
                    },
                );
                self.published = published;
                ReceiveOutcome::Stored(p)
            },
            Err(e) => ReceiveOutcome::Rejected(e),
        }
    }

    /// The latency station `id` reported, once it has sent a valid packet.
    pub fn latency_of(&self, id: u64) -> (r: Option<u8>)
        ensures
            r == spec_latency(self.published(), id),
    {
        match find_station(&self.published, id, true) {
            Some(i) => Some(self.published[i].latency_bits),
            None => None,
        }
    }

    /// The render settings a modded station `id` reported, once it has sent a valid packet.
    pub fn settings_of(&self, id: u64, is_modded: bool) -> (r: Option<u16>)
        ensures
            r == spec_settings(self.published(), id, is_modded),
    {
        if !is_modded {
            return None;
        }
        match find_station(&self.published, id, true) {
            Some(i) => Some(self.published[i].render_profile_settings_bits),
            None => None,
        }
    }
}

/// The state that draining connection events works on: the queued events,
/// oldest first, and the two copies of the station table.
pub struct DrainState {
    pub queue: Seq<QueuedConnEvent>,
    pub synced: Seq<StationNetInfo>,
    pub published: Seq<StationNetInfo>,
}

/// One drain step: the oldest event is applied to the synchronised table,
/// which is then published; an empty queue changes nothing.
pub open spec fn spec_drain_step(st: DrainState, initial_latency_bits: u8, initial_settings_bits: u16) -> DrainState {
    if st.queue.len() == 0 {
        st
    } else {
        let e = st.queue[0];
        let t = spec_apply_event(st.synced, e.id, e.event, initial_latency_bits, initial_settings_bits);
        DrainState { queue: st.queue.drop_first(), synced: t, published: t }
    }
}

/// `n` drain steps.
pub open spec fn spec_drain_steps(
    st: DrainState,
    n: nat,
    initial_latency_bits: u8,
    initial_settings_bits: u16,
) -> DrainState
    decreases n,
{
    if n == 0 {
        st
    } else {
        spec_drain_steps(
            spec_drain_step(st, initial_latency_bits, initial_settings_bits),
            (n - 1) as nat,
            initial_latency_bits,
            initial_settings_bits,
        )
    }
}

/// The table after applying all the events in order.
pub open spec fn spec_apply_all(
    s: Seq<StationNetInfo>,
    q: Seq<QueuedConnEvent>,
    initial_latency_bits: u8,
    initial_settings_bits: u16,
) -> Seq<StationNetInfo>
    decreases q.len(),
{
    if q.len() == 0 {
        s
    } else {
        spec_apply_all(
            spec_apply_event(s, q[0].id, q[0].event, initial_latency_bits, initial_settings_bits),
            q.drop_first(),
            initial_latency_bits,
            initial_settings_bits,
        )
    }
}

/// Draining the ring (stepping until it gives nothing) leaves it empty, the
/// synchronised table with every event applied in order, and the published
/// table equal to it, unless there was no event at all, in which case
/// nothing is republished.
pub proof fn lemma_drain(st: DrainState, initial_latency_bits: u8, initial_settings_bits: u16)
    ensures
        ({
            let end = spec_drain_steps(st, st.queue.len(), initial_latency_bits, initial_settings_bits);
            let all = spec_apply_all(st.synced, st.queue, initial_latency_bits, initial_settings_bits);
            &&& end.queue.len() == 0
            &&& end.synced == all
            &&& end.published == if st.queue.len() == 0 {
                st.published
            } else {
                all
            }
            &&& spec_drain_step(end, initial_latency_bits, initial_settings_bits) == end
        }),
    decreases st.queue.len(),
{
    if st.queue.len() > 0 {
        let next = spec_drain_step(st, initial_latency_bits, initial_settings_bits);
        lemma_drain(next, initial_latency_bits, initial_settings_bits);
        if st.queue.len() == 1 {
            assert(next.queue.len() == 0);
        }
    }
}

/// Takes the oldest queued connection event and applies it; gives back the
/// number of connected stations that came with it, or `None` when the ring
/// was empty.
pub fn process_next_connection_event(
    ring: &mut ConnEventRing,
    registry: &mut StationRegistry,
    initial_latency_bits: u8,
    initial_settings_bits: u16,
) -> (r: Option<usize>)
    requires
        old(ring).wf(),
    ensures
        final(ring).wf(),
        old(ring)@.len() == 0 ==> r is None && final(ring)@ == old(ring)@ && *final(registry)
            == *old(registry),
        old(ring)@.len() > 0 ==> {
            let e = old(ring)@[0];
            &&& r == Some(e.num_connected)
            &&& final(ring)@ == old(ring)@.drop_first()
            &&& final(registry).synced() == spec_apply_event(
                old(registry).synced(),
                e.id,
                e.event,
                initial_latency_bits,
                initial_settings_bits,
            )
            &&& final(registry).published() == final(registry).synced()
            &&& no_valid_entry(final(registry).published())
        },
        (DrainState {
            queue: final(ring)@,
            synced: final(registry).synced(),
            published: final(registry).published(),
        }) == spec_drain_step(
            DrainState {
                queue: old(ring)@,
                synced: old(registry).synced(),
                published: old(registry).published(),
            },
            initial_latency_bits,
            initial_settings_bits,
        ),
{
    match ring.pop_conn_event() {
        None => None,
        Some(e) => {
            registry.apply_connection_event(
                e.id,
                e.event,
                initial_latency_bits,
                initial_settings_bits,
            );
            Some(e.num_connected)
        },
    }
}

/// A connected station as the extended-info lookups see it.
#[derive(Debug, Clone, Copy, PartialEq, Eq, Structural)]
pub struct StationHandle {
    pub id: u64,
    pub is_modded: bool,
}

/// Extended information of a connected station.
pub trait StationExt {
    /// The latency the station reported.
    fn get_latency(&self, registry: &StationRegistry) -> Option<u8>;

    /// The render profile settings the station reported.
    fn get_render_profile_settings(&self, registry: &StationRegistry) -> Option<u16>;
}

impl StationExt for StationHandle {
    fn get_latency(&self, registry: &StationRegistry) -> (r: Option<u8>)
        ensures
            r == spec_latency(registry.published(), self.id),
    {
        registry.latency_of(self.id)
    }

    fn get_render_profile_settings(&self, registry: &StationRegistry) -> (r: Option<u16>)
        ensures
            r == spec_settings(registry.published(), self.id, self.is_modded),
    {
        registry.settings_of(self.id, self.is_modded)
    }
}

/// What a read gives back of a write: once a packet from a known station is
/// stored, the lookups give back its latency and, for a modded station, its
/// settings.
pub proof fn lemma_receive_then_lookup(s: Seq<StationNetInfo>, id: u64, data: Seq<u8>)
    requires
        spec_receive_outcome(s, id, data) is Stored,
    ensures
        ({
            let p = spec_receive_outcome(s, id, data)->Stored_0;
            let t = spec_receive_table(s, id, data);
            &&& spec_latency(t, id) == Some(p.latency_bits)
            &&& spec_settings(t, id, true) == Some(p.render_profile_settings_bits)
            &&& spec_settings(t, id, false) == None::<u16>
        }),
{
    let k = first_match(s, id, false);
    lemma_first_match_exists(s, id, false);
    let t = spec_receive_table(s, id, data);
    assert forall|j: int| 0 <= j < k implies !#[trigger] station_matches(t[j], id, true) by {
        assert(!station_matches(s[j], id, false));
    }
    assert(is_first_match(t, id, true, k));
    lemma_first_match_unique(t, id, true, k);
}

/// A packet this build sends, received from a known station, is read back as
/// the latency and settings that were sent.
pub proof fn lemma_send_receive_round_trip(
    s: Seq<StationNetInfo>,
    id: u64,
    latency_bits: u8,
    settings_bits: u16,
)
    requires
        has_match(s, id, false),
    ensures
        ({
            let t = spec_receive_table(s, id, crate::packet::spec_encode(latency_bits, settings_bits));
            &&& spec_latency(t, id) == Some(latency_bits)
            &&& spec_settings(t, id, true) == Some(settings_bits)
        }),
{
    let data = crate::packet::spec_encode(latency_bits, settings_bits);
    crate::packet::lemma_send_then_parse(latency_bits, settings_bits);
    assert(data[0] == crate::packet::PIA_CUSTOM_COMMS_VERSION);
    lemma_receive_then_lookup(s, id, data);
}

/// A table without valid entries gives no extended info for any station.
pub proof fn lemma_no_valid_entry_no_info(s: Seq<StationNetInfo>, id: u64, is_modded: bool)
    requires
        no_valid_entry(s),
    ensures
        spec_latency(s, id) == None::<u8>,
        spec_settings(s, id, is_modded) == None::<u16>,
{
    if has_match(s, id, true) {
        let i = choose|i: int| 0 <= i < s.len() && #[trigger] station_matches(s[i], id, true);
        assert(!s[i].is_valid_comms);
    }
}

/// Right after any connection event no station has extended info: a station
/// only has some once a packet of its own was accepted after the last event.
pub proof fn lemma_no_info_after_connection_event(
    before: Seq<StationNetInfo>,
    id: u64,
    event: ConnectionEvent,
    initial_latency_bits: u8,
    initial_settings_bits: u16,
    other: u64,
    is_modded: bool,
)
    requires
        no_valid_entry(before),
    ensures
        ({
            let t = spec_apply_event(before, id, event, initial_latency_bits, initial_settings_bits);
            &&& no_valid_entry(t)
            &&& spec_latency(t, other) == None::<u8>
            &&& spec_settings(t, other, is_modded) == None::<u16>
        }),
{
    let t = spec_apply_event(before, id, event, initial_latency_bits, initial_settings_bits);
    match event {
        ConnectionEvent::StationConnected => {},
        ConnectionEvent::StationDisconnected => {
            if has_match(before, id, false) {
                let k = first_match(before, id, false);
                lemma_first_match_exists(before, id, false);
                assert forall|i: int| 0 <= i < t.len() implies !#[trigger] t[i].is_valid_comms by {
                    if i < k {
                        assert(t[i] == before[i]);
                    } else {
                        assert(t[i] == before[i + 1]);
                    }
                }
            }
        },
    }
    lemma_no_valid_entry_no_info(t, other, is_modded);
}

/// No entry of station `x` holds a valid packet.
pub open spec fn no_valid_for(s: Seq<StationNetInfo>, x: u64) -> bool {
    forall|i: int| 0 <= i < s.len() && #[trigger] s[i].id == x ==> !s[i].is_valid_comms
}

/// Without a valid entry of its own, a station has no extended info.
pub proof fn lemma_no_valid_for_no_info(s: Seq<StationNetInfo>, x: u64, is_modded: bool)
    requires
        no_valid_for(s, x),
    ensures
        spec_latency(s, x) == None::<u8>,
        spec_settings(s, x, is_modded) == None::<u16>,
{
    if has_match(s, x, true) {
        let i = choose|i: int| 0 <= i < s.len() && #[trigger] station_matches(s[i], x, true);
        assert(s[i].id == x);
    }
}

/// Packets accepted from other stations, and packets of station `x` that are
/// not accepted, leave `x` without extended info: it has some only once a
/// packet of its own is accepted.
pub proof fn lemma_receive_keeps_no_info(s: Seq<StationNetInfo>, x: u64, sender: u64, data: Seq<u8>)
    requires
        no_valid_for(s, x),
        sender != x || !(spec_receive_outcome(s, sender, data) is Stored),
    ensures
        no_valid_for(spec_receive_table(s, sender, data), x),
{
    let t = spec_receive_table(s, sender, data);
    if spec_receive_outcome(s, sender, data) is Stored {
        lemma_first_match_exists(s, sender, false);
        let k = first_match(s, sender, false);
        assert forall|i: int| 0 <= i < t.len() && #[trigger] t[i].id == x implies !t[i].is_valid_comms by {
            if i != k {
                assert(t[i] == s[i]);
            }
        }
    }
}

/// A table without valid entries has none for any station.
pub proof fn lemma_no_valid_entry_for(s: Seq<StationNetInfo>, x: u64)
    requires
        no_valid_entry(s),
    ensures
        no_valid_for(s, x),
{
}

/// The value of a string of decimal digits.
pub open spec fn digits_value(s: Seq<char>) -> int
    decreases s.len(),
{
    if s.len() == 0 {
        0
    } else {
        digits_value(s.drop_last()) * 10 + (s.last() as int - '0' as int)
    }
}

/// Whether every character is an ASCII decimal digit.
pub open spec fn all_digits(s: Seq<char>) -> bool {
    forall|i: int| 0 <= i < s.len() ==> '0' <= #[trigger] s[i] <= '9'
}

/// What `str::parse::<usize>` gives: an optional leading `+` followed by at
/// least one decimal digit, with a value that fits.
pub open spec fn spec_parse_usize(s: Seq<char>) -> Option<usize> {
    let d = if s.len() > 0 && s[0] == '+' {
        s.drop_first()
    } else {
        s
    };
    if d.len() > 0 && all_digits(d) && digits_value(d) <= usize::MAX {
        Some(digits_value(d) as usize)
    } else {
        None
    }
}

/// `str::parse::<usize>` (std's `FromStr for usize`, radix 10): the number
/// written by an optional `+` and decimal digits, or an error (here `None`)
/// for an empty string, any other character, or a value that does not fit.
#[verifier::external_body]
fn parse_usize(s: &str) -> (r: Option<usize>)
    ensures
        r == spec_parse_usize(s@),
{
    s.parse::<usize>().ok()
}

/// Number of dummy stations of the test build: the configured number when it
/// parses, else 3.
pub fn dummy_connection_count(value: Option<&str>) -> (r: usize)
    ensures
        r == match value {
            Some(v) => match spec_parse_usize(v@) {
                Some(n) => n,
                None => 3,
            },
            None => 3,
        },
{
    match value {
        Some(v) => match parse_usize(v) {
            Some(n) => n,
            None => 3,
        },
        None => 3,
    }
}

/// A station that connects is in the table afterwards.
pub proof fn lemma_connect_adds_station(
    s: Seq<StationNetInfo>,
    x: u64,
    initial_latency_bits: u8,
    initial_settings_bits: u16,
)
    ensures
        has_match(
            spec_apply_event(
                s,
                x,
                ConnectionEvent::StationConnected,
                initial_latency_bits,
                initial_settings_bits,
            ),
            x,
            false,
        ),
{
    let t = spec_apply_event(
        s,
        x,
        ConnectionEvent::StationConnected,
        initial_latency_bits,
        initial_settings_bits,
    );
    assert(station_matches(t[s.len() as int], x, false));
}

/// Other stations connecting or leaving keep station `x` in the table.
pub proof fn lemma_other_events_keep_station(
    s: Seq<StationNetInfo>,
    x: u64,
    y: u64,
    event: ConnectionEvent,
    initial_latency_bits: u8,
    initial_settings_bits: u16,
)
    requires
        has_match(s, x, false),
        event == ConnectionEvent::StationConnected || y != x,
    ensures
        has_match(spec_apply_event(s, y, event, initial_latency_bits, initial_settings_bits), x, false),
{
    let t = spec_apply_event(s, y, event, initial_latency_bits, initial_settings_bits);
    let i = choose|i: int| 0 <= i < s.len() && #[trigger] station_matches(s[i], x, false);
    match event {
        ConnectionEvent::StationConnected => {
            assert(station_matches(t[i], x, false));
        },
        ConnectionEvent::StationDisconnected => {
            if has_match(s, y, false) {
                lemma_first_match_exists(s, y, false);
                let k = first_match(s, y, false);
                assert(i != k);
                if i < k {
                    assert(station_matches(t[i], x, false));
                } else {
                    assert(station_matches(t[i - 1], x, false));
                }
            }
        },
    }
}

/// Incoming packets change no station's id, nor the table's length, so
/// every station stays in it.
pub proof fn lemma_receive_keeps_stations(s: Seq<StationNetInfo>, x: u64, sender: u64, data: Seq<u8>)
    requires
        has_match(s, x, false),
    ensures
        has_match(spec_receive_table(s, sender, data), x, false),
        spec_receive_table(s, sender, data).len() == s.len(),
{
    let t = spec_receive_table(s, sender, data);
    let i = choose|i: int| 0 <= i < s.len() && #[trigger] station_matches(s[i], x, false);
    if spec_receive_outcome(s, sender, data) is Stored {
        lemma_first_match_exists(s, sender, false);
    }
    assert(station_matches(t[i], x, false));
}

/// The history of the README's promise: station `x` connects, other
/// stations come and go, and `x` sends a packet of this build with latency
/// `l` and settings `r`; then the lookups give back `l` and, for a modded
/// station, `r`. Before that packet, `x` had no extended info.
pub proof fn lemma_connected_station_reads_back(
    s: Seq<StationNetInfo>,
    x: u64,
    others: Seq<(u64, ConnectionEvent)>,
    initial_latency_bits: u8,
    initial_settings_bits: u16,
    l: u8,
    r: u16,
)
    requires
        no_valid_entry(s),
        forall|i: int| 0 <= i < others.len() ==> (#[trigger] others[i]).0 != x || others[i].1
            == ConnectionEvent::StationConnected,
    ensures
        ({
            let joined = spec_apply_event(
                s,
                x,
                ConnectionEvent::StationConnected,
                initial_latency_bits,
                initial_settings_bits,
            );
            let before = spec_apply_pairs(joined, others, initial_latency_bits, initial_settings_bits);
            let after = spec_receive_table(before, x, crate::packet::spec_encode(l, r));
            &&& spec_latency(before, x) == None::<u8>
            &&& spec_latency(after, x) == Some(l)
            &&& spec_settings(after, x, true) == Some(r)
        }),
{
    let joined = spec_apply_event(
        s,
        x,
        ConnectionEvent::StationConnected,
        initial_latency_bits,
        initial_settings_bits,
    );
    lemma_connect_adds_station(s, x, initial_latency_bits, initial_settings_bits);
    lemma_no_info_after_connection_event(
        s,
        x,
        ConnectionEvent::StationConnected,
        initial_latency_bits,
        initial_settings_bits,
        x,
        true,
    );
    lemma_pairs_keep_station(joined, x, others, initial_latency_bits, initial_settings_bits);
    let before = spec_apply_pairs(joined, others, initial_latency_bits, initial_settings_bits);
    lemma_no_valid_for_no_info(before, x, true);
    lemma_send_receive_round_trip(before, x, l, r);
}

/// The table after a sequence of connection events.
pub open spec fn spec_apply_pairs(
    s: Seq<StationNetInfo>,
    events: Seq<(u64, ConnectionEvent)>,
    initial_latency_bits: u8,
    initial_settings_bits: u16,
) -> Seq<StationNetInfo>
    decreases events.len(),
{
    if events.len() == 0 {
        s
    } else {
        spec_apply_pairs(
            spec_apply_event(s, events[0].0, events[0].1, initial_latency_bits, initial_settings_bits),
            events.drop_first(),
            initial_latency_bits,
            initial_settings_bits,
        )
    }
}

/// Events of other stations (and connections) keep station `x` in the
/// table, and keep tables without valid entries so.
pub proof fn lemma_pairs_keep_station(
    s: Seq<StationNetInfo>,
    x: u64,
    events: Seq<(u64, ConnectionEvent)>,
    initial_latency_bits: u8,
    initial_settings_bits: u16,
)
    requires
        has_match(s, x, false),
        forall|i: int| 0 <= i < events.len() ==> (#[trigger] events[i]).0 != x || events[i].1
            == ConnectionEvent::StationConnected,
    ensures
        has_match(spec_apply_pairs(s, events, initial_latency_bits, initial_settings_bits), x, false),
        no_valid_entry(s) ==> no_valid_entry(
            spec_apply_pairs(s, events, initial_latency_bits, initial_settings_bits),
        ),
    decreases events.len(),
{
    if events.len() > 0 {
        let t = spec_apply_event(s, events[0].0, events[0].1, initial_latency_bits, initial_settings_bits);
        assert(events[0].0 != x || events[0].1 == ConnectionEvent::StationConnected);
        lemma_other_events_keep_station(
            s,
            x,
            events[0].0,
            events[0].1,
            initial_latency_bits,
            initial_settings_bits,
        );
        if no_valid_entry(s) {
            lemma_no_info_after_connection_event(
                s,
                events[0].0,
                events[0].1,
                initial_latency_bits,
                initial_settings_bits,
                x,
                true,
            );
        }
        assert forall|i: int| 0 <= i < events.drop_first().len() implies (
        #[trigger] events.drop_first()[i]).0 != x || events.drop_first()[i].1
            == ConnectionEvent::StationConnected by {
            assert(events.drop_first()[i] == events[i + 1]);
        }
        lemma_pairs_keep_station(
            t,
            x,
            events.drop_first(),
            initial_latency_bits,
            initial_settings_bits,
        );
    }
}

/// Every packet the decoder accepts, current or legacy, is stored for a
/// known sender: the outcome is the decoded packet, the sender's latency
/// lookup gives its latency and a modded sender's settings lookup its
/// settings. In bytes: a four-byte packet of version 3 gives its latency and
/// little-endian settings word; one of version 2 gives its latency and the
/// settings word with bits 14 and 15 cleared.
pub proof fn lemma_accepted_packet_is_stored(s: Seq<StationNetInfo>, id: u64, data: Seq<u8>)
    requires
        has_match(s, id, false),
        spec_parse(data) is Ok,
    ensures
        ({
            let p = spec_parse(data)->Ok_0;
            let t = spec_receive_table(s, id, data);
            &&& spec_receive_outcome(s, id, data) == ReceiveOutcome::Stored(p)
            &&& spec_latency(t, id) == Some(p.latency_bits)
            &&& spec_settings(t, id, true) == Some(p.render_profile_settings_bits)
            &&& t.len() == s.len()
        }),
        data.len() == 4 && data[0] == crate::packet::PIA_CUSTOM_COMMS_VERSION ==> spec_latency(
            spec_receive_table(s, id, data),
            id,
        ) == Some(data[1]) && spec_settings(spec_receive_table(s, id, data), id, true) == Some(
            (data[2] as int + 256 * data[3] as int) as u16,
        ),
        data.len() == 4 && data[0] == crate::packet::PIA_LEGACY_COMMS_VERSION ==> spec_latency(
            spec_receive_table(s, id, data),
            id,
        ) == Some(data[1]) && spec_settings(spec_receive_table(s, id, data), id, true) == Some(
            ((data[2] as int + 256 * data[3] as int) % 0x4000) as u16,
        ),
{
    assert(data.len() == 4);
    assert(data[0] != 0);
    lemma_receive_then_lookup(s, id, data);
    lemma_receive_keeps_stations(s, id, id, data);
}

/// A packet that is not stored leaves the table as it was: one whose first
/// byte is 0 is ignored, one from a station not in the table is dropped, and
/// one the decoder refuses is rejected with the decoder's error.
pub proof fn lemma_unstored_packet_changes_nothing(s: Seq<StationNetInfo>, id: u64, data: Seq<u8>)
    ensures
        data.len() > 0 && data[0] == 0 ==> spec_receive_outcome(s, id, data)
            == ReceiveOutcome::Ignored && spec_receive_table(s, id, data) == s,
        !(data.len() > 0 && data[0] == 0) && !has_match(s, id, false) ==> spec_receive_outcome(
            s,
            id,
            data,
        ) == ReceiveOutcome::UnknownStation && spec_receive_table(s, id, data) == s,
        !(data.len() > 0 && data[0] == 0) && has_match(s, id, false) && spec_parse(data) is Err
            ==> spec_receive_outcome(s, id, data) == ReceiveOutcome::Rejected(
            spec_parse(data)->Err_0,
        ) && spec_receive_table(s, id, data) == s,
{
}

/// A connection appends one fresh entry (no valid packet, the initial
/// latency and settings) and keeps the others in order; a disconnection of
/// a station in the table removes exactly one of its entries, the first,
/// and keeps the others in order; a disconnection of an unknown station
/// changes nothing.
pub proof fn lemma_connection_event_effect(
    s: Seq<StationNetInfo>,
    id: u64,
    initial_latency_bits: u8,
    initial_settings_bits: u16,
)
    ensures
        ({
            let t = spec_apply_event(
                s,
                id,
                ConnectionEvent::StationConnected,
                initial_latency_bits,
                initial_settings_bits,
            );
            &&& t.len() == s.len() + 1
            &&& t.subrange(0, s.len() as int) == s
            &&& t[s.len() as int] == StationNetInfo {
                id,
                is_valid_comms: false,
                latency_bits: initial_latency_bits,
                render_profile_settings_bits: initial_settings_bits,
            }
        }),
        ({
            let t = spec_apply_event(
                s,
                id,
                ConnectionEvent::StationDisconnected,
                initial_latency_bits,
                initial_settings_bits,
            );
            &&& !has_match(s, id, false) ==> t == s
            &&& has_match(s, id, false) ==> exists|k: int|
                0 <= k < s.len() && s[k].id == id && (forall|j: int|
                    0 <= j < k ==> #[trigger] s[j].id != id) && t == s.subrange(0, k) + s.subrange(
                    k + 1,
                    s.len() as int,
                )
        }),
{
    let t = spec_apply_event(
        s,
        id,
        ConnectionEvent::StationConnected,
        initial_latency_bits,
        initial_settings_bits,
    );
    assert(t.subrange(0, s.len() as int) =~= s);
    if has_match(s, id, false) {
        lemma_first_match_exists(s, id, false);
        let k = first_match(s, id, false);
        let t2 = spec_apply_event(
            s,
            id,
            ConnectionEvent::StationDisconnected,
            initial_latency_bits,
            initial_settings_bits,
        );
        assert(t2 =~= s.subrange(0, k) + s.subrange(k + 1, s.len() as int));
        assert forall|j: int| 0 <= j < k implies #[trigger] s[j].id != id by {
            assert(!station_matches(s[j], id, false));
        }
    }
}

} // verus!
