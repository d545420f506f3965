//! Bits in `KeyEvent.flags`.

use vstd::prelude::*;

verus! {

/// The key is being pressed (cleared for a release).
pub const PRESSED: u8 = 1;
/// The scancode is an extended (E0-prefixed) code.
pub const EXTENDED: u8 = 2;

} // verus!
