//! Frames: the tag byte that selects a frame's layout, and one type per
//! frame with its encoder and decoder.
pub mod ack;
pub mod connection_close;
pub mod crypto;
pub mod data_blocked;
pub mod max_data;
pub mod max_stream_data;
pub mod max_streams;
pub mod new_connection_id;
pub mod new_token;
pub mod path_challenge;
pub mod path_response;
pub mod reset_stream;
pub mod retire_connection_id;
pub mod stop_sending;
pub mod stream;
pub mod stream_data_blocked;
pub mod streams_blocked;
pub mod tagged;
pub mod types;
