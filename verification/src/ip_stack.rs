//! The user-space IP stack's UDP egress path: one session stands for one
//! user-space UDP socket, and each send builds the raw IPv4/IPv6+UDP
//! packet that goes into a transmit token of the link-layer device.

use vstd::prelude::*;

use crate::flow::{DestinationAddr, HostName, IpAddress};
use crate::ip_packet::{build_ipv4_udp, build_ipv6_udp, spec_ipv4_udp_packet, spec_ipv6_udp_packet};

verus! {

/// The largest UDP payload an egress packet accepts: the device MTU of
/// 1500 less the worst-case 48 bytes of headers.
pub const MAX_UDP_PAYLOAD: usize = 1452;

/// One user-space UDP socket on the stack: the local endpoint packets are
/// addressed to, its port, and the IPv6 flow label of the session.
pub struct IpStackDatagramSession {
    pub local_endpoint: IpAddress,
    pub local_port: u16,
    pub flow_label: u32,
}

impl IpStackDatagramSession {
    /// The egress packet for one send, if any: the payload must fit in
    /// `MAX_UDP_PAYLOAD` bytes, the source must already be an IP, and its
    /// family must match the local endpoint's; otherwise the send is
    /// dropped and no packet reaches the device.
    pub open spec fn spec_egress(self, src: DestinationAddr, buf: Seq<u8>) -> Option<Seq<u8>> {
        if buf.len() > MAX_UDP_PAYLOAD {
            None
        } else {
            match (self.local_endpoint, src.host) {
                (IpAddress::V4(dst), HostName::Ip(IpAddress::V4(s))) => Some(
                    spec_ipv4_udp_packet(s, dst, src.port, self.local_port, buf),
                ),
                (IpAddress::V6(dst), HostName::Ip(IpAddress::V6(s))) => Some(
                    spec_ipv6_udp_packet(s, dst, src.port, self.local_port, self.flow_label, buf),
                ),
                _ => None,
            }
        }
    }

    /// Build the egress packet for sending `buf` from `src` through this
    /// socket, or learn that the send is dropped: oversized payloads,
    /// unresolved destinations and mismatched address families produce no
    /// packet.
    pub fn send_to(&self, src: &DestinationAddr, buf: &Vec<u8>) -> (r: Option<Vec<u8>>)
        ensures
            match r {
                Some(p) => self.spec_egress(*src, buf@) == Some(p@),
                None => self.spec_egress(*src, buf@) is None,
            },
            buf@.len() > MAX_UDP_PAYLOAD ==> r is None,
            src.host matches HostName::Domain(_) ==> r is None,
    {
        if buf.len() > MAX_UDP_PAYLOAD {
            // Oversized datagram: dropped, nothing reaches the device.
            return None;
        }
        match (&self.local_endpoint, &src.host) {
            (IpAddress::V4(dst), HostName::Ip(IpAddress::V4(s))) => Some(
                build_ipv4_udp(*s, *dst, src.port, self.local_port, buf),
            ),
            (IpAddress::V6(dst), HostName::Ip(IpAddress::V6(s))) => Some(
                build_ipv6_udp(*s, *dst, src.port, self.local_port, self.flow_label, buf),
            ),
            // An unresolved destination or a mismatched address family:
            // dropped silently.
            _ => None,
        }
    }
}

} // verus!
