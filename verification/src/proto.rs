//! The wire protocol between the client and the agent.

pub mod channel;
pub mod chunk_flags;
pub mod envelope;
pub mod message;
pub mod latency;
pub mod pdu;
pub mod scancode;
pub mod wire;
