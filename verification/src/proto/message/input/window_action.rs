//! Values for `WindowControl.action`.

use vstd::prelude::*;

verus! {

/// Ask the app to close the window.
pub const CLOSE: u8 = 1;
/// Bring the window to the foreground.
pub const ACTIVATE: u8 = 2;
/// Minimize.
pub const MINIMIZE: u8 = 3;
/// Maximize.
pub const MAXIMIZE: u8 = 4;
/// Restore from minimized/maximized.
pub const RESTORE: u8 = 5;
/// Move to the supplied position.
pub const MOVE: u8 = 6;
/// Resize to the supplied size.
pub const RESIZE: u8 = 7;

} // verus!
