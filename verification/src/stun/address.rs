use crate::stun::util::same_bytes;
use vstd::prelude::*;

verus! {

/// An internet address: four bytes, or sixteen.
#[derive(Debug, Clone, Copy, PartialEq, Eq, Hash)]
pub enum IpAddress {
    V4([u8; 4]),
    V6([u8; 16]),
}

/// An internet address with a port: where a peer is reached, or where it is seen from.
#[derive(Debug, Clone, Copy, PartialEq, Eq, Hash)]
pub struct SocketAddress {
    pub ip: IpAddress,
    pub port: u16,
}

impl IpAddress {
    /// The bytes of the address in network order: four of them, or sixteen.
    pub open spec fn octets(self) -> Seq<u8> {
        match self {
            IpAddress::V4(bytes) => bytes@,
            IpAddress::V6(bytes) => bytes@,
        }
    }

    /// Whether two addresses are of one family and hold the same bytes.
    pub fn same(&self, other: &IpAddress) -> (same: bool)
        ensures
            same == (*self == *other),
    {
        match (self, other) {
            (IpAddress::V4(a), IpAddress::V4(b)) => {
                let same = same_bytes(a.as_slice(), b.as_slice());
                assert(a@ == b@ ==> *a =~= *b);
                same
            },
            (IpAddress::V6(a), IpAddress::V6(b)) => {
                let same = same_bytes(a.as_slice(), b.as_slice());
                assert(a@ == b@ ==> *a =~= *b);
                same
            },
            _ => false,
        }
    }
}

impl SocketAddress {
    pub fn new(ip: IpAddress, port: u16) -> (address: SocketAddress)
        ensures
            address == (SocketAddress { ip, port }),
    {
        SocketAddress { ip, port }
    }

    /// Whether two socket addresses hold the same address and the same port.
    pub fn same(&self, other: &SocketAddress) -> (same: bool)
        ensures
            same == (*self == *other),
    {
        self.port == other.port && self.ip.same(&other.ip)
    }
}

} // verus!
