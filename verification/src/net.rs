//! Network addresses as plain values.

use vstd::prelude::*;

verus! {

/// An IP address, version 4 or 6, by its octets or segments.
#[derive(Clone, Copy, Debug, PartialEq, Eq)]
pub enum IpAddress {
    V4([u8; 4]),
    V6([u16; 8]),
}

/// An IP address together with a UDP port.
#[derive(Clone, Copy, Debug, PartialEq, Eq)]
pub struct SocketAddress {
    pub ip: IpAddress,
    pub port: u16,
}

/// Port on which the nodes of a cluster broadcast to each other.
pub const BROADCAST_PORT: u16 = 65056;

/// Where a message without a given receiver goes: the limited broadcast
/// address on the cluster's port.
pub open spec fn spec_broadcast_address() -> SocketAddress {
    SocketAddress { ip: IpAddress::V4([255u8, 255u8, 255u8, 255u8]), port: BROADCAST_PORT }
}

/// The address a message is sent to: the given receiver, or the broadcast
/// address when there is none.
pub fn destination(receiver: Option<SocketAddress>) -> (addr: SocketAddress)
    ensures
        addr == (match receiver {
            Some(a) => a,
            None => spec_broadcast_address(),
        }),
{
    match receiver {
        Some(a) => a,
        None => SocketAddress { ip: IpAddress::V4([255u8, 255u8, 255u8, 255u8]), port: BROADCAST_PORT },
    }
}

} // verus!
