# ssbu_online_deluxe

The logic of the SSBU Online Deluxe plugin as a Verus-verified library.

- `src/packet.rs`: the four-byte custom-comms packet (decode, legacy
  normalisation, the packet this console sends).
- `src/conn_ring.rs`: the sixteen-slot ring of station connection events.
- `src/station.rs`: the station table, incoming packets, lookups.
- `src/stealth.rs`: the beacon signature scan and the one-shot patch state.
- `src/drs.rs`: dynamic-resolution targets and the deferred-pop gate.
- `src/crit_hit.rs`: the per-fighter critical-hit tracker.
- `src/config.rs`: the render configuration and what follows from it.

`app/` holds the glue that cannot be verified: global state, console calls
(built for the Switch only), `config.toml` loading, the session log and the
NRO packer.
