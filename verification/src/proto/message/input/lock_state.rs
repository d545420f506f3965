//! Bits in `ModifierSync.locks`.

use vstd::prelude::*;

verus! {

/// Caps lock is on.
pub const CAPS: u8 = 1;
/// Num lock is on.
pub const NUM: u8 = 2;
/// Scroll lock is on.
pub const SCROLL: u8 = 4;

} // verus!
