use crate::stun::address::SocketAddress;
use vstd::prelude::*;

verus! {

/// An address at which a peer may be reached, by how it was learned.
#[derive(Debug, Clone, Copy, PartialEq, Eq)]
pub enum Candidate {
    /// An address of a local interface.
    Host(SocketAddress),
    /// The address that a server saw a request come from.
    ServerReflexive(SocketAddress),
    /// The address that the other peer saw a request come from.
    PeerReflexive(SocketAddress),
}

} // verus!
