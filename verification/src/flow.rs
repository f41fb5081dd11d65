//! Flow primitives: addresses, per-connection context, transport errors and
//! the size hint exchanged on the stream buffer-handoff interface.

use vstd::prelude::*;

verus! {

/// An IP address, IPv4 held as its 32-bit big-endian value and IPv6 as its
/// 128-bit big-endian value.
#[derive(Clone, Copy, PartialEq, Eq, Structural, Debug)]
pub enum IpAddress {
    V4(u32),
    V6(u128),
}

/// A concrete socket address: an IP address plus a port.
#[derive(Clone, Copy, PartialEq, Eq, Structural, Debug)]
pub struct SocketAddress {
    pub ip: IpAddress,
    pub port: u16,
}

/// The host part of a destination: already resolved to an IP, or still a
/// domain name (ASCII bytes).
#[derive(Clone, Debug)]
pub enum HostName {
    Ip(IpAddress),
    Domain(Vec<u8>),
}

/// A destination that may be an IP or a hostname, plus a port.
#[derive(Clone, Debug)]
pub struct DestinationAddr {
    pub host: HostName,
    pub port: u16,
}

/// Per-connection metadata handed to handlers and factories.
#[derive(Clone, Debug)]
pub struct FlowContext {
    pub local_peer: SocketAddress,
    pub remote_peer: DestinationAddr,
}

/// A transport error. EOF during receive is a normal termination signal and
/// is distinguished from every other failure.
#[derive(Clone, Copy, PartialEq, Eq, Structural, Debug)]
pub enum FlowError {
    Eof,
    Other,
}

pub type FlowResult<T> = Result<T, FlowError>;

/// An advisory bound on the next chunk a stream is willing to hand over.
/// `None` means the peer gave no estimate.
#[derive(Clone, Copy, PartialEq, Eq, Structural, Debug)]
pub struct SizeHint {
    pub bound: Option<usize>,
}

impl SizeHint {
    /// The advised size, raised to at least `min` bytes.
    pub open spec fn spec_with_min_content(self, min: usize) -> usize {
        match self.bound {
            Some(b) => if b >= min {
                b
            } else {
                min
            },
            None => min,
        }
    }

    /// Clamp the hint from below: the result is the advised size or `min`,
    /// whichever is larger.
    pub fn with_min_content(&self, min: usize) -> (r: usize)
        ensures
            r == self.spec_with_min_content(min),
            r >= min,
    {
        match self.bound {
            Some(b) => if b >= min {
                b
            } else {
                min
            },
            None => min,
        }
    }
}

} // verus!
