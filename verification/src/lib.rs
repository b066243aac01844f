//! Bootstrap of a peer-to-peer file-sharing session from a magnet URI:
//! magnet parsing, the UDP tracker exchanges (CONNECT, then ANNOUNCE),
//! the peer-wire handshake and length-prefixed framing, and the
//! aggregation of the peer lists that the trackers return.
pub mod be_bytes;
pub mod decimal;
pub mod endpoint;
pub mod hex_codec;
pub mod magnet;
pub mod messages;
pub mod peer_stream;
pub mod peers;
pub mod rng;
pub mod tracker;
