//! Message type codes. This registry is permanent: a retired code is never reused.

use vstd::prelude::*;

verus! {

/// Client handshake.
pub const CLIENT_HELLO: u8 = 0x01;
/// Agent handshake reply.
pub const SERVER_HELLO: u8 = 0x02;
/// Protocol or runtime error.
pub const ERROR: u8 = 0x03;
/// Orderly shutdown.
pub const CLOSE: u8 = 0x04;
/// Liveness probe.
pub const PING: u8 = 0x05;
/// Liveness reply (also carries the agent clock).
pub const PONG: u8 = 0x06;
/// Client's quality/latency preference.
pub const QUALITY_HINT: u8 = 0x07;
/// Client's output topology.
pub const DISPLAY_LAYOUT: u8 = 0x08;

/// A window appeared.
pub const WINDOW_OPENED: u8 = 0x10;
/// A window disappeared.
pub const WINDOW_CLOSED: u8 = 0x11;
/// A window moved or resized.
pub const WINDOW_GEOMETRY: u8 = 0x12;
/// A window's title changed.
pub const WINDOW_TITLE: u8 = 0x13;
/// A window was minimized/maximized/restored.
pub const WINDOW_STATE: u8 = 0x14;
/// A window's stacking position changed.
pub const WINDOW_ZORDER: u8 = 0x15;
/// A window's icon.
pub const WINDOW_ICON: u8 = 0x16;

/// An encoded (or raw) frame.
pub const FRAME_DATA: u8 = 0x20;
/// Client acknowledgement of a presented frame.
pub const FRAME_ACK: u8 = 0x21;

/// Pointer motion / buttons / wheel.
pub const POINTER_EVENT: u8 = 0x30;
/// Key press or release (PS/2 set 1 scancode).
pub const KEY_EVENT: u8 = 0x31;
/// Unicode text (IME path).
pub const TEXT_INPUT: u8 = 0x32;
/// Authoritative modifier/lock state.
pub const MODIFIER_SYNC: u8 = 0x33;
/// Client-initiated window action (close/activate/move/resize/…).
pub const WINDOW_CONTROL: u8 = 0x38;

/// A cursor bitmap.
pub const CURSOR_SHAPE: u8 = 0x40;
/// Cursor position within a window.
pub const CURSOR_POSITION: u8 = 0x41;
/// Whether the cursor is visible.
pub const CURSOR_VISIBILITY: u8 = 0x42;

} // verus!
