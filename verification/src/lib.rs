//! A pluggable traffic-forwarding engine: typed plugin graph construction,
//! bidirectional stream and datagram forwarders, a DNS datagram handler with
//! bounded reverse-IP caches, a resolver UDP shim, and raw IPv4/IPv6+UDP
//! egress packet construction.
//!
//! The asynchronous transports themselves live outside this crate; here every
//! decision they feed is a plain function of state and event, specified and
//! verified over mathematical models of the streams and sessions.

pub mod datagram_model;
pub mod dispatch;
pub mod dns_cache;
pub mod dns_codec;
pub mod dns_server;
pub mod dyn_config;
pub mod flow;
pub mod forward;
pub mod ip_packet;
pub mod ip_stack;
pub mod loader;
pub mod registry;
pub mod resolver_socket;
pub mod simple_dispatcher;
pub mod stream_model;
pub mod trojan;

use vstd::prelude::*;

verus! {

/// Payload bytes of one datagram or one stream chunk.
pub type Buffer = Vec<u8>;

} // verus!
