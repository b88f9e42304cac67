use ssbu_online_deluxe::conn_ring::{ConnEventRing, ConnectionEvent, QueuedConnEvent};

fn ev(id: u64, event: ConnectionEvent, n: usize) -> QueuedConnEvent {
    QueuedConnEvent { id, event, num_connected: n }
}

#[test]
fn empty_ring_pops_nothing() {
    let mut ring = ConnEventRing::new();
    assert_eq!(ring.len(), 0);
    assert_eq!(ring.pop_conn_event(), None);
}

#[test]
fn events_come_back_in_order() {
    let mut ring = ConnEventRing::new();
    ring.push_conn_event(10, ConnectionEvent::StationConnected, 2);
    ring.push_conn_event(11, ConnectionEvent::StationDisconnected, 1);
    assert_eq!(ring.len(), 2);
    assert_eq!(ring.pop_conn_event(), Some(ev(10, ConnectionEvent::StationConnected, 2)));
    assert_eq!(ring.pop_conn_event(), Some(ev(11, ConnectionEvent::StationDisconnected, 1)));
    assert_eq!(ring.pop_conn_event(), None);
}

#[test]
fn full_ring_drops_the_oldest() {
    let mut ring = ConnEventRing::new();
    for i in 0..20u64 {
        ring.push_conn_event(i, ConnectionEvent::StationConnected, i as usize);
    }
    assert_eq!(ring.len(), 16);
    for i in 4..20u64 {
        assert_eq!(ring.pop_conn_event(), Some(ev(i, ConnectionEvent::StationConnected, i as usize)));
    }
    assert_eq!(ring.pop_conn_event(), None);
}

#[test]
fn ring_wraps_many_times() {
    let mut ring = ConnEventRing::new();
    for i in 0..1000u64 {
        let e = if i % 3 == 0 { ConnectionEvent::StationDisconnected } else { ConnectionEvent::StationConnected };
        ring.push_conn_event(i, e, 7);
        assert_eq!(ring.pop_conn_event(), Some(ev(i, e, 7)));
    }
    assert_eq!(ring.len(), 0);
}

#[test]
fn large_counts_keep_their_low_56_bits() {
    let mut ring = ConnEventRing::new();
    let n: usize = usize::MAX;
    ring.push_conn_event(1, ConnectionEvent::StationConnected, n);
    let got = ring.pop_conn_event().unwrap();
    assert_eq!(got.num_connected as u64, (n as u64) & 0x00ff_ffff_ffff_ffff);
}
