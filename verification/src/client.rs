//! The client session.
//!
//! Connects to the agent, performs the handshake, answers protocol housekeeping, and surfaces
//! window-lifecycle, frame and cursor events for the display layer.
//!
//! Frames are decoded here, on the session side ([`decode`]), so the display layer only ever
//! sees `RAW_BGRA` and stays codec-agnostic.

pub mod cli;
pub mod clock;
pub mod decode;
pub mod describe;
pub mod driver;
pub mod event;
pub mod geometry;
pub mod headless;
pub mod latency;
pub mod link;
pub mod model;
pub mod session;
pub mod task;
