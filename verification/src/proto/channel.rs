//! Well-known channel numbers.

use vstd::prelude::*;

verus! {

/// Handshake, ping/pong, errors, quality hints, display layout.
pub const CONTROL: u16 = 0;
/// Pointer, keyboard, text, window control (client to agent).
pub const INPUT: u16 = 1;
/// Cursor shape/position/visibility (agent to client).
pub const CURSOR: u16 = 2;
/// Window lifecycle events (agent to client).
pub const WINDOW: u16 = 3;
/// First channel available for per-window video streams.
pub const VIDEO_BASE: u16 = 16;

} // verus!
