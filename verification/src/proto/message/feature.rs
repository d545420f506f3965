//! Capability bits negotiated in the handshake. A feature is active only if both peers advertise it.

use vstd::prelude::*;

verus! {

/// The cursor is streamed separately instead of being composited into frames.
pub const CURSOR_STREAM: u64 = 1;
/// Frames are acknowledged and the sender applies an in-flight budget.
pub const FRAME_ACK: u64 = 2;
/// Frames may carry damage rectangles.
pub const DAMAGE_RECTS: u64 = 4;
/// The client may close/move/resize/activate windows.
pub const WINDOW_CONTROL: u64 = 8;
/// Unicode text input in addition to scancodes.
pub const TEXT_INPUT: u64 = 0x10;
/// Window and application icons are sent.
pub const ICONS: u64 = 0x20;
/// Audio streaming.
pub const AUDIO: u64 = 0x40;
/// Clipboard exchange.
pub const CLIPBOARD: u64 = 0x80;

/// Everything this build implements today.
pub const SUPPORTED: u64 = CURSOR_STREAM | FRAME_ACK | WINDOW_CONTROL | TEXT_INPUT | ICONS;

} // verus!
