//! Network front-end of a game server: the XTEA cipher and Adler-32 checksum
//! of its wire protocol, a little-endian binary codec, the staged frame
//! parsers and the per-connection reader stages, the outgoing frame encoder,
//! per-connection write coalescing, the connection throttle and session
//! limiter, and the tick's decisions on accepted and finished connections.

pub mod adler32;
pub mod le_bytes;
pub mod frozen;
pub mod xtea;
pub mod decoder;
pub mod encoder;
pub mod primitives;
pub mod packets;
pub mod incoming;
pub mod outgoing;
pub mod peer;
pub mod settings;
pub mod throttle;
pub mod limiter;
pub mod connection;
pub mod packet;
pub mod reader;
pub mod tick;
