//! The decision logic of the SSBU Online Deluxe plugin: the custom-comms packet
//! exchanged between modded consoles, the table of connected stations, the
//! connection-event ring, the stealth beacon scan, the dynamic-resolution
//! report gate, the critical-hit tracker and the render configuration.
pub mod packet;
pub mod conn_ring;
pub mod station;
pub mod stealth;
pub mod drs;
pub mod crit_hit;
pub mod config;
