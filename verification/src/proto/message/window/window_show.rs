//! Values for `WindowState.state`.

use vstd::prelude::*;

verus! {

/// Restored / normal.
pub const NORMAL: u8 = 0;
/// Minimized.
pub const MINIMIZED: u8 = 1;
/// Maximized.
pub const MAXIMIZED: u8 = 2;

} // verus!
