//! Chunk header flag bits.

use vstd::prelude::*;

verus! {

/// More chunks follow for this message on this channel.
pub const FRAG_MORE: u8 = 0x01;
/// Bits that are defined; anything else must be zero.
pub const KNOWN: u8 = FRAG_MORE;

} // verus!
