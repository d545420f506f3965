//! The RDP connection sequence, up to the end of MCS channel join.
//!
//! A pure state machine: it performs no I/O and knows PDUs by what they say, not by their bytes.
//! Whoever owns the socket and TLS reads frames ([`tpkt`]), turns them into [`connector`] replies,
//! and encodes the requests that come back.

pub mod config;
pub mod connector;
pub mod tpkt;
