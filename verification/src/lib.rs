//! A verified core for a real-time relay hub.
//!
//! The hub bridges an external publish/subscribe bus to many concurrently
//! connected streaming clients. Each client subscribes to at most one channel
//! at a time; every message arriving from the external bus is fanned out to
//! exactly the connections whose current subscription matches the message's
//! origin channel.
//!
//! This crate holds the verified state and decision logic of that hub:
//! the connection registry with its fan-out buffers, the wire protocol
//! (client commands in, envelopes out), the external-bus relay state machine,
//! and the configuration-validation glue. The surrounding I/O (sockets, the
//! external bus client, the file system) lives outside this crate and drives
//! these functions with plain values.

pub mod models;
pub mod relay;
pub mod assoc;
pub mod connection_manager;
pub mod jsontext;
pub mod protocol;
pub mod yaml_service;

use vstd::prelude::*;

verus! {

/// The health probe's whole answer: the service is up.
pub fn health_check() -> (r: &'static str)
    ensures
        r@ == "OK"@,
{
    "OK"
}

} // verus!
