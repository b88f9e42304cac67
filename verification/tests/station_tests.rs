use ssbu_online_deluxe::conn_ring::{ConnEventRing, ConnectionEvent};
use ssbu_online_deluxe::packet::{send_payload, PiaCommsError, PiaCustomNetPacket};
use ssbu_online_deluxe::station::{
    dummy_connection_count,
    process_next_connection_event, ReceiveOutcome, StationExt, StationHandle, StationNetInfo,
    StationRegistry,
};

const UNKNOWN_LATENCY: u8 = 0xff;
const VANILLA: u16 = 0;

fn connected(reg: &mut StationRegistry, id: u64) {
    reg.apply_connection_event(id, ConnectionEvent::StationConnected, UNKNOWN_LATENCY, VANILLA);
}

#[test]
fn new_station_has_no_extended_info() {
    let mut reg = StationRegistry::new();
    connected(&mut reg, 5);
    let h = StationHandle { id: 5, is_modded: true };
    assert_eq!(h.get_latency(&reg), None);
    assert_eq!(h.get_render_profile_settings(&reg), None);
    assert_eq!(
        reg.published_stations(),
        vec![StationNetInfo { id: 5, is_valid_comms: false, latency_bits: 0xff, render_profile_settings_bits: 0 }]
    );
}

#[test]
fn stored_packet_is_read_back() {
    let mut reg = StationRegistry::new();
    connected(&mut reg, 5);
    let data = send_payload(Some(3), 0, true, 0, 0x0042);
    let r = reg.receive_pia_data(5, &data);
    assert_eq!(
        r,
        ReceiveOutcome::Stored(PiaCustomNetPacket { version: 3, latency_bits: 3, render_profile_settings_bits: 0x42 })
    );
    let modded = StationHandle { id: 5, is_modded: true };
    let vanilla = StationHandle { id: 5, is_modded: false };
    assert_eq!(modded.get_latency(&reg), Some(3));
    assert_eq!(modded.get_render_profile_settings(&reg), Some(0x42));
    assert_eq!(vanilla.get_latency(&reg), Some(3));
    assert_eq!(vanilla.get_render_profile_settings(&reg), None);
}

#[test]
fn zero_first_byte_is_ignored() {
    let mut reg = StationRegistry::new();
    connected(&mut reg, 5);
    assert_eq!(reg.receive_pia_data(5, &[0, 0, 0, 0]), ReceiveOutcome::Ignored);
    assert_eq!(reg.latency_of(5), None);
}

#[test]
fn unknown_sender_and_bad_packets() {
    let mut reg = StationRegistry::new();
    connected(&mut reg, 5);
    assert_eq!(reg.receive_pia_data(6, &[3, 1, 0, 0]), ReceiveOutcome::UnknownStation);
    assert_eq!(reg.receive_pia_data(5, &[9, 1, 0, 0]), ReceiveOutcome::Rejected(PiaCommsError::VersionMismatch));
    assert_eq!(reg.receive_pia_data(5, &[3, 1]), ReceiveOutcome::Rejected(PiaCommsError::InvalidData));
    assert_eq!(reg.latency_of(5), None);
}

#[test]
fn connection_event_republishes_synced_table() {
    let mut reg = StationRegistry::new();
    connected(&mut reg, 5);
    reg.receive_pia_data(5, &[3, 8, 1, 0]);
    assert_eq!(reg.latency_of(5), Some(8));
    connected(&mut reg, 6);
    // the synchronised copy never saw the packet, so republishing it drops the info
    assert_eq!(reg.latency_of(5), None);
    reg.apply_connection_event(5, ConnectionEvent::StationDisconnected, UNKNOWN_LATENCY, VANILLA);
    assert_eq!(reg.published_stations().len(), 1);
    assert_eq!(reg.published_stations()[0].id, 6);
}

#[test]
fn disconnect_of_unknown_station_changes_nothing() {
    let mut reg = StationRegistry::new();
    connected(&mut reg, 1);
    reg.apply_connection_event(2, ConnectionEvent::StationDisconnected, UNKNOWN_LATENCY, VANILLA);
    assert_eq!(reg.published_stations().len(), 1);
}

#[test]
fn draining_the_ring_applies_events_in_order() {
    let mut ring = ConnEventRing::new();
    let mut reg = StationRegistry::new();
    ring.push_conn_event(1, ConnectionEvent::StationConnected, 2);
    ring.push_conn_event(2, ConnectionEvent::StationConnected, 3);
    ring.push_conn_event(1, ConnectionEvent::StationDisconnected, 2);
    let mut counts = Vec::new();
    while let Some(n) = process_next_connection_event(&mut ring, &mut reg, UNKNOWN_LATENCY, VANILLA) {
        counts.push(n);
    }
    assert_eq!(counts, vec![2, 3, 2]);
    let ids: Vec<u64> = reg.published_stations().iter().map(|s| s.id).collect();
    assert_eq!(ids, vec![2]);
}

#[test]
fn dummy_connection_count_parses_or_defaults() {
    assert_eq!(dummy_connection_count(None), 3);
    assert_eq!(dummy_connection_count(Some("5")), 5);
    assert_eq!(dummy_connection_count(Some("+12")), 12);
    assert_eq!(dummy_connection_count(Some("007")), 7);
    assert_eq!(dummy_connection_count(Some("")), 3);
    assert_eq!(dummy_connection_count(Some("+")), 3);
    assert_eq!(dummy_connection_count(Some("-1")), 3);
    assert_eq!(dummy_connection_count(Some(" 4")), 3);
    assert_eq!(dummy_connection_count(Some("99999999999999999999999")), 3);
}

#[test]
fn packets_from_others_leave_a_station_without_info() {
    let mut reg = StationRegistry::new();
    connected(&mut reg, 1);
    connected(&mut reg, 2);
    reg.receive_pia_data(2, &[3, 4, 0, 0]);
    reg.receive_pia_data(1, &[7, 4, 0, 0]);
    assert_eq!(reg.latency_of(1), None);
    assert_eq!(reg.latency_of(2), Some(4));
    reg.synced_has_no_valid_entry();
}

#[test]
fn station_stays_readable_across_other_stations_events() {
    let mut ring = ConnEventRing::new();
    let mut reg = StationRegistry::new();
    ring.push_conn_event(1, ConnectionEvent::StationConnected, 2);
    ring.push_conn_event(2, ConnectionEvent::StationConnected, 3);
    ring.push_conn_event(2, ConnectionEvent::StationDisconnected, 2);
    ring.push_conn_event(3, ConnectionEvent::StationConnected, 3);
    while process_next_connection_event(&mut ring, &mut reg, UNKNOWN_LATENCY, VANILLA).is_some() {}
    assert_eq!(ring.len(), 0);
    assert_eq!(reg.latency_of(1), None);
    let data = send_payload(None, 9, false, 0x21, 0);
    reg.receive_pia_data(1, &data);
    assert_eq!(reg.latency_of(1), Some(9));
    assert_eq!(reg.settings_of(1, true), Some(0x21));
}
