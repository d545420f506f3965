//! Codec identifiers. Zero is invalid so an all-zero field cannot look like a valid codec.

use vstd::prelude::*;

verus! {

/// Uncompressed BGRA8, top-down, tightly packed. Bring-up only.
pub const RAW_BGRA: u8 = 1;
/// Annex-B H.264.
pub const H264: u8 = 2;
/// Annex-B H.265.
pub const H265: u8 = 3;
/// AV1.
pub const AV1: u8 = 4;

} // verus!
