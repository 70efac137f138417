use vstd::prelude::*;

verus! {

/// A socket address: an IPv4 or IPv6 address with a port.
#[allow(inconsistent_fields)]
#[derive(Debug, Copy, Clone, PartialEq, Eq, Structural)]
pub enum NetAddr {
    /// IPv4 address (its octets read as a big-endian number) and port.
    V4 { ip: u32, port: u16 },
    /// IPv6 address (its octets read as a big-endian number), port, flow info and scope id.
    V6 { ip: u128, port: u16, flowinfo: u32, scope_id: u32 },
}

/// The unspecified address of the same family as `server_addr`, with port 0.
pub open spec fn spec_client_address(server_addr: NetAddr) -> NetAddr {
    match server_addr {
        NetAddr::V4 { .. } => NetAddr::V4 { ip: 0, port: 0 },
        NetAddr::V6 { .. } => NetAddr::V6 { ip: 0, port: 0, flowinfo: 0, scope_id: 0 },
    }
}

/// An address as it comes back from the bytes of a connect token: an IPv6 address keeps its IP and port
/// but loses its flow info and scope id.
pub open spec fn address_as_read_back(addr: NetAddr) -> NetAddr {
    match addr {
        NetAddr::V4 { .. } => addr,
        NetAddr::V6 { ip, port, .. } => NetAddr::V6 { ip, port, flowinfo: 0, scope_id: 0 },
    }
}

/// Get an unspecified client address from a server address.
///
/// The type of the client address returned will be tailored to the type of the server address (Ipv4/Ipv6).
pub fn client_address_from_server_address(server_addr: &NetAddr) -> (r: NetAddr)
    ensures
        r == spec_client_address(*server_addr),
{
    match server_addr {
        NetAddr::V4 { .. } => NetAddr::V4 { ip: 0, port: 0 },
        NetAddr::V6 { .. } => NetAddr::V6 { ip: 0, port: 0, flowinfo: 0, scope_id: 0 },
    }
}

} // verus!
