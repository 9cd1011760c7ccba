//! Wire-format codec for the control plane of a multiplexed transport
//! protocol: variable-length integers, connection identifiers, packet
//! numbers, frame type tags, frames and long packet headers.
//!
//! Encoders append to a `Vec<u8>`; decoders read from the front of a byte
//! slice and report how many bytes they consumed.
pub mod byteorder;
pub mod conn_id;
pub mod error;
pub mod frame;
pub mod packet;
pub mod packet_number;
pub mod varint;
