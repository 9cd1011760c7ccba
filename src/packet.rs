//! Long packet headers, used before the short-header phase: the shared
//! body (version and connection IDs) and the Initial, 0-RTT and Handshake
//! headers built on it.
pub mod handshake_header;
pub mod initial_header;
pub mod long_header;
pub mod zero_rtt_header;
