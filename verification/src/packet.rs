//! The four-byte custom-comms packet that modded consoles attach to their
//! PIA traffic: `[version, latency_bits, settings_lo, settings_hi]`, the
//! settings word stored little-endian, as on the console.
use vstd::prelude::*;

verus! {

/// Version of the packet this build sends.
pub const PIA_CUSTOM_COMMS_VERSION: u8 = 3;

/// Older packet version that is still accepted (its two top settings bits are dropped).
pub const PIA_LEGACY_COMMS_VERSION: u8 = 2;

/// Why an incoming packet was not accepted.
#[derive(Debug, Clone, Copy, PartialEq, Eq, Structural)]
pub enum PiaCommsError {
    VersionMismatch,
    InvalidData,
}

/// The decoded packet.
#[derive(Debug, Clone, Copy, PartialEq, Eq, Structural)]
pub struct PiaCustomNetPacket {
    pub version: u8,
    pub latency_bits: u8,
    pub render_profile_settings_bits: u16,
}

/// The little-endian word made of two bytes.
pub open spec fn le_word(lo: u8, hi: u8) -> u16 {
    (lo as int + 256 * hi as int) as u16
}

/// What a packet of the given bytes is taken to be.
pub open spec fn spec_parse(data: Seq<u8>) -> Result<PiaCustomNetPacket, PiaCommsError> {
    if data.len() != 4 {
        Err(PiaCommsError::InvalidData)
    } else {
        let bits = le_word(data[2], data[3]);
        if data[0] == PIA_CUSTOM_COMMS_VERSION {
            Ok(
                PiaCustomNetPacket {
                    version: data[0],
                    latency_bits: data[1],
                    render_profile_settings_bits: bits,
                },
            )
        } else if data[0] == PIA_LEGACY_COMMS_VERSION {
            Ok(
                PiaCustomNetPacket {
                    version: data[0],
                    latency_bits: data[1],
                    render_profile_settings_bits: (bits % 0x4000) as u16,
                },
            )
        } else {
            Err(PiaCommsError::VersionMismatch)
        }
    }
}

/// The bytes of a packet of the current version.
pub open spec fn spec_encode(latency_bits: u8, settings_bits: u16) -> Seq<u8> {
    seq![
        PIA_CUSTOM_COMMS_VERSION,
        latency_bits,
        (settings_bits % 256) as u8,
        (settings_bits / 256) as u8,
    ]
}

/// `zerocopy::FromBytes::read_from_bytes` for `[u8; 4]`: succeeds exactly when
/// the source holds four bytes, and then copies them.
#[verifier::external_body]
fn read_four_bytes(data: &[u8]) -> (r: Option<[u8; 4]>)
    ensures
        r is Some <==> data@.len() == 4,
        r matches Some(a) ==> a@ == data@,
{
    <[u8; 4] as zerocopy::FromBytes>::read_from_bytes(data).ok()
}

/// Decodes an incoming packet; a version-2 packet has settings bits 14 and 15 cleared.
pub fn normalize_and_parse_data(data: &[u8]) -> (r: Result<PiaCustomNetPacket, PiaCommsError>)
    ensures
        r == spec_parse(data@),
{
    let bytes = match read_four_bytes(data) {
        Some(b) => b,
        None => return Err(PiaCommsError::InvalidData),
    };
    let mut packet = PiaCustomNetPacket {
        version: bytes[0],
        latency_bits: bytes[1],
        render_profile_settings_bits: bytes[2] as u16 + (bytes[3] as u16) * 256,
    };
    if packet.version == PIA_CUSTOM_COMMS_VERSION {
        return Ok(packet);
    } else if packet.version == PIA_LEGACY_COMMS_VERSION {
        let bits = packet.render_profile_settings_bits;
        let cleared = bits & !(1u16 << 14) & !(1u16 << 15);
        assert(bits & !(1u16 << 14) & !(1u16 << 15) == bits % 0x4000) by (bit_vector);
        packet.render_profile_settings_bits = cleared;
        return Ok(packet);
    }
    Err(PiaCommsError::VersionMismatch)
}

/// The packet this console broadcasts: the active latency when one is set,
/// else the selected one, and the settings of the profile in force (the
/// active one during a match, the selected one otherwise).
pub fn send_payload(
    active_latency_bits: Option<u8>,
    selected_latency_bits: u8,
    in_real_game: bool,
    selected_settings_bits: u16,
    active_settings_bits: u16,
) -> (r: [u8; 4])
    ensures
        r@ == spec_encode(
            match active_latency_bits {
                Some(l) => l,
                None => selected_latency_bits,
            },
            if in_real_game {
                active_settings_bits
            } else {
                selected_settings_bits
            },
        ),
{
    let latency_bits = match active_latency_bits {
        Some(l) => l,
        None => selected_latency_bits,
    };
    let settings_bits = if in_real_game {
        active_settings_bits
    } else {
        selected_settings_bits
    };
    let r = [
        PIA_CUSTOM_COMMS_VERSION,
        latency_bits,
        (settings_bits % 256) as u8,
        (settings_bits / 256) as u8,
    ];
    assert(r@ =~= spec_encode(latency_bits, settings_bits));
    r
}

/// A packet this build sends is read back by a receiver as the latency and
/// settings that were put in.
pub proof fn lemma_send_then_parse(latency_bits: u8, settings_bits: u16)
    ensures
        spec_parse(spec_encode(latency_bits, settings_bits)) == Ok::<
            PiaCustomNetPacket,
            PiaCommsError,
        >(
            PiaCustomNetPacket {
                version: PIA_CUSTOM_COMMS_VERSION,
                latency_bits,
                render_profile_settings_bits: settings_bits,
            },
        ),
{
    let s = spec_encode(latency_bits, settings_bits);
    assert(le_word(s[2], s[3]) == settings_bits);
}

/// A legacy packet keeps its version and latency and loses exactly settings
/// bits 14 and 15.
pub proof fn lemma_legacy_packet_normalized(data: Seq<u8>)
    requires
        data.len() == 4,
        data[0] == PIA_LEGACY_COMMS_VERSION,
    ensures
        spec_parse(data) matches Ok(p) && p.version == PIA_LEGACY_COMMS_VERSION
            && p.latency_bits == data[1] && p.render_profile_settings_bits < 0x4000
            && p.render_profile_settings_bits % 0x4000 == le_word(data[2], data[3]) % 0x4000,
{
}

/// The decoder accepts exactly the four-byte packets of version 2 or 3:
/// any other length is invalid data, any other version a mismatch, and an
/// accepted packet keeps its version and latency byte.
pub proof fn lemma_parse_accepts(data: Seq<u8>)
    ensures
        data.len() != 4 ==> spec_parse(data) == Err::<PiaCustomNetPacket, PiaCommsError>(
            PiaCommsError::InvalidData,
        ),
        data.len() == 4 && data[0] != PIA_CUSTOM_COMMS_VERSION && data[0]
            != PIA_LEGACY_COMMS_VERSION ==> spec_parse(data) == Err::<
            PiaCustomNetPacket,
            PiaCommsError,
        >(PiaCommsError::VersionMismatch),
        data.len() == 4 && (data[0] == PIA_CUSTOM_COMMS_VERSION || data[0]
            == PIA_LEGACY_COMMS_VERSION) ==> (spec_parse(data) matches Ok(p) && p.version == data[0]
            && p.latency_bits == data[1] && p.render_profile_settings_bits as int == (if data[0]
            == PIA_CUSTOM_COMMS_VERSION {
            data[2] as int + 256 * data[3] as int
        } else {
            (data[2] as int + 256 * data[3] as int) % 0x4000
        })),
{
}

} // verus!
