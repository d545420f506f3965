//! Values for `CursorShape.format`.

use vstd::prelude::*;

verus! {

/// 32-bit BGRA, premultiplied alpha, top-down.
pub const BGRA_PREMUL: u8 = 1;

} // verus!
