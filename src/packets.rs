//! Packet kinds and payload traits, one module per direction. The two kind
//! spaces are disjoint: the same number names different packets in each
//! direction.

pub mod client;
pub mod server;

use vstd::prelude::*;

verus! {

/// Number of bytes of the kind field.
pub const PACKET_KIND_SIZE: usize = 1;

} // verus!
