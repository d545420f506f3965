//! Error codes carried by [`Error`].

use vstd::prelude::*;

verus! {

/// Malformed or out-of-sequence message.
pub const PROTOCOL: u16 = 1;
/// Authentication token rejected.
pub const AUTH_FAILED: u16 = 2;
/// No mutually supported protocol version.
pub const VERSION_MISMATCH: u16 = 3;
/// No mutually supported codec.
pub const UNSUPPORTED_CODEC: u16 = 4;
/// The referenced window no longer exists.
pub const WINDOW_GONE: u16 = 5;
/// Capture failed on the guest.
pub const CAPTURE_FAILED: u16 = 6;
/// Unexpected internal failure.
pub const INTERNAL: u16 = 7;
/// A message exceeded the size limit for its type.
pub const TOO_LARGE: u16 = 8;

} // verus!
