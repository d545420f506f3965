//! Bits in `WindowOpened.flags`.

use vstd::prelude::*;

verus! {

/// The window can be resized by the user.
pub const RESIZABLE: u32 = 1;
/// The window has a system frame/title bar.
pub const HAS_FRAME: u32 = 2;
/// The window is always on top.
pub const TOPMOST: u32 = 4;
/// The window is currently minimized.
pub const MINIMIZED: u32 = 8;
/// The window is currently maximized.
pub const MAXIMIZED: u32 = 0x10;

} // verus!
