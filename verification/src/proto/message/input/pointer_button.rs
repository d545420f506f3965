//! Bits in `PointerEvent.buttons`.

use vstd::prelude::*;

verus! {

/// Left button held.
pub const LEFT: u8 = 1;
/// Right button held.
pub const RIGHT: u8 = 2;
/// Middle button held.
pub const MIDDLE: u8 = 4;
/// First extra (back) button held.
pub const X1: u8 = 8;
/// Second extra (forward) button held.
pub const X2: u8 = 0x10;

} // verus!
