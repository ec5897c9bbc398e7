//! Polling client for a four-channel analog sensor device reached over a
//! datagram link.
//!
//! The device resets its session unless it is polled continuously, so the
//! client keeps a rate-limited polling cycle alive: encode a request, send
//! it, receive and decode the reply, and hand the latest reading to a
//! consumer through a single-slot concurrency-safe cell. This crate holds
//! the protocol, state-machine and concurrency logic; the datagram socket
//! itself and the execution contexts that drive the loops live with the
//! embedding program, which feeds events (timestamps, received bytes,
//! transport outcomes) into the state machine here.

pub mod backend;
pub mod cell;
pub mod codec;
pub mod errors;
pub mod rate;
pub mod values;
