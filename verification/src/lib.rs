//! A remote-window client: the wire protocol, the client's state machines and the display rules.
//!
//! - [`proto`] holds the protocol: chunk framing, message bodies, clocks and key codes.
//! - [`client`] holds the client session: the window model, decoding, latency and geometry.
//! - [`display`] holds the rules of the display layer.
//! - [`rdp`] holds the RDP connection sequence.

pub mod client;
pub mod display;
pub mod proto;
pub mod rdp;
pub mod text;
