//! Bits in `FrameData.flags`.

use vstd::prelude::*;

verus! {

/// This frame is a keyframe / full refresh — decodable without any earlier frame for the
/// window.
pub const KEYFRAME: u8 = 1;

} // verus!
