//! Reasons carried by [`Close`](crate::proto::message::Close).

use vstd::prelude::*;

verus! {

/// The sender is shutting down.
pub const GOING_AWAY: u16 = 1;
/// The sender met an error it cannot continue from.
pub const ERROR: u16 = 2;

} // verus!
