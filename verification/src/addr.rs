use vstd::prelude::*;

verus! {

/// A socket address held as plain values: an IPv4 address (its four octets
/// read big-endian) and port, or an IPv6 address (its sixteen octets read
/// big-endian), port, flow information and scope identifier.
#[derive(Debug, Clone, Copy, PartialEq, Eq, Structural, Hash)]
pub enum SocketAddress {
    V4 { ip4: u32, port: u16 },
    V6 { ip6: u128, port: u16, flowinfo: u32, scope_id: u32 },
}

} // verus!
