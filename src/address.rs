//! Socket addresses as plain values.
use vstd::prelude::*;

verus! {

/// The IP part of a host address.
#[derive(Clone, Copy, Debug, PartialEq, Eq)]
pub enum HostIp {
    /// An IPv4 address, one octet per entry.
    V4([u8; 4]),
    /// An IPv6 address, one 16-bit segment per entry.
    V6([u16; 8]),
}

/// A host address (IP and port) that the server listens on.
#[derive(Clone, Copy, Debug, PartialEq, Eq)]
pub struct HostAddr {
    /// The IP address.
    pub ip: HostIp,
    /// The port.
    pub port: u16,
}

impl HostAddr {
    /// An IPv4 host address.
    pub fn v4(octets: [u8; 4], port: u16) -> (r: HostAddr)
        ensures
            r == (HostAddr { ip: HostIp::V4(octets), port }),
    {
        HostAddr { ip: HostIp::V4(octets), port }
    }

    /// An IPv6 host address.
    pub fn v6(segments: [u16; 8], port: u16) -> (r: HostAddr)
        ensures
            r == (HostAddr { ip: HostIp::V6(segments), port }),
    {
        HostAddr { ip: HostIp::V6(segments), port }
    }
}

} // verus!
