use ssbu_online_deluxe::packet::{
    normalize_and_parse_data, send_payload, PiaCommsError, PiaCustomNetPacket,
    PIA_CUSTOM_COMMS_VERSION,
};

#[test]
fn parses_current_version_packet() {
    let r = normalize_and_parse_data(&[3, 7, 0x34, 0x12]);
    assert_eq!(
        r,
        Ok(PiaCustomNetPacket { version: 3, latency_bits: 7, render_profile_settings_bits: 0x1234 })
    );
}

#[test]
fn legacy_packet_loses_top_two_settings_bits() {
    let r = normalize_and_parse_data(&[2, 5, 0xff, 0xff]);
    assert_eq!(
        r,
        Ok(PiaCustomNetPacket { version: 2, latency_bits: 5, render_profile_settings_bits: 0x3fff })
    );
    let r = normalize_and_parse_data(&[2, 1, 0x01, 0x80]);
    assert_eq!(r.unwrap().render_profile_settings_bits, 0x0001);
}

#[test]
fn unknown_version_is_a_mismatch() {
    assert_eq!(normalize_and_parse_data(&[4, 0, 0, 0]), Err(PiaCommsError::VersionMismatch));
    assert_eq!(normalize_and_parse_data(&[0, 0, 0, 0]), Err(PiaCommsError::VersionMismatch));
    assert_eq!(normalize_and_parse_data(&[1, 9, 9, 9]), Err(PiaCommsError::VersionMismatch));
}

#[test]
fn wrong_length_is_invalid_data() {
    assert_eq!(normalize_and_parse_data(&[]), Err(PiaCommsError::InvalidData));
    assert_eq!(normalize_and_parse_data(&[3, 1, 2]), Err(PiaCommsError::InvalidData));
    assert_eq!(normalize_and_parse_data(&[3, 1, 2, 3, 4]), Err(PiaCommsError::InvalidData));
}

#[test]
fn send_payload_prefers_active_latency_and_match_settings() {
    assert_eq!(send_payload(Some(4), 9, true, 0x0102, 0xabcd), [3, 4, 0xcd, 0xab]);
    assert_eq!(send_payload(None, 9, false, 0x0102, 0xabcd), [3, 9, 0x02, 0x01]);
    assert_eq!(send_payload(None, 0, true, 0, 0xffff), [3, 0, 0xff, 0xff]);
}

#[test]
fn send_then_parse_round_trip() {
    let bytes = send_payload(Some(12), 3, true, 0x1111, 0xc0de);
    assert_eq!(
        normalize_and_parse_data(&bytes),
        Ok(PiaCustomNetPacket {
            version: PIA_CUSTOM_COMMS_VERSION,
            latency_bits: 12,
            render_profile_settings_bits: 0xc0de
        })
    );
}
