//! Bits in `ModifierSync.modifiers`.

use vstd::prelude::*;

verus! {

/// Either shift key.
pub const SHIFT: u16 = 1;
/// Either control key.
pub const CTRL: u16 = 2;
/// Either alt key.
pub const ALT: u16 = 4;
/// Either meta/Windows key.
pub const META: u16 = 8;

} // verus!
