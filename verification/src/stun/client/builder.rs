use crate::stun::address::SocketAddress;
use crate::stun::client::retry::{Backoff, RetryPolicy};
use crate::stun::client::Client;
use vstd::prelude::*;

verus! {

/// Collects what a client is made of: the address to bind to, the peer to
/// reach, and the retry policy. `L` and `P` are whatever names the two
/// addresses until they are resolved; `()` stands for one not given yet.
pub struct ClientBuilder<L, P> {
    local_addr: L,
    peer_addr: P,
    rto: u64,
    max_attempts: u32,
    backoff: Backoff,
}

/// The timeout of the first attempt where none is given, in milliseconds.
pub const DEFAULT_RTO: u64 = 500;

/// The number of attempts where none is given.
pub const DEFAULT_MAX_ATTEMPTS: u32 = 7;

impl<L, P> ClientBuilder<L, P> {
    /// The local address that was given.
    pub closed spec fn local_addr(self) -> L {
        self.local_addr
    }

    /// The address of the peer that was given.
    pub closed spec fn peer_addr(self) -> P {
        self.peer_addr
    }

    /// The retry policy as it stands.
    pub closed spec fn policy(self) -> RetryPolicy {
        RetryPolicy { rto: self.rto, max_attempts: self.max_attempts, backoff: self.backoff }
    }

    /// Sets the timeout of the first attempt, in milliseconds.
    pub fn rto(self, rto: u64) -> (builder: ClientBuilder<L, P>)
        ensures
            builder.local_addr() == self.local_addr(),
            builder.peer_addr() == self.peer_addr(),
            builder.policy() == (RetryPolicy { rto, ..self.policy() }),
    {
        ClientBuilder {
            local_addr: self.local_addr,
            peer_addr: self.peer_addr,
            rto,
            max_attempts: self.max_attempts,
            backoff: self.backoff,
        }
    }

    /// Sets the number of attempts after which a request is given up.
    pub fn max_attempts(self, max_attempts: u32) -> (builder: ClientBuilder<L, P>)
        ensures
            builder.local_addr() == self.local_addr(),
            builder.peer_addr() == self.peer_addr(),
            builder.policy() == (RetryPolicy { max_attempts, ..self.policy() }),
    {
        ClientBuilder {
            local_addr: self.local_addr,
            peer_addr: self.peer_addr,
            rto: self.rto,
            max_attempts,
            backoff: self.backoff,
        }
    }

    /// Sets how the timeout grows from one attempt to the next.
    pub fn backoff(self, backoff: Backoff) -> (builder: ClientBuilder<L, P>)
        ensures
            builder.local_addr() == self.local_addr(),
            builder.peer_addr() == self.peer_addr(),
            builder.policy() == (RetryPolicy { backoff, ..self.policy() }),
    {
        ClientBuilder {
            local_addr: self.local_addr,
            peer_addr: self.peer_addr,
            rto: self.rto,
            max_attempts: self.max_attempts,
            backoff,
        }
    }

    /// Gives out what was collected: the two addresses as they were given,
    /// and the retry policy.
    pub fn into_parts(self) -> (parts: (L, P, RetryPolicy))
        ensures
            parts == (self.local_addr(), self.peer_addr(), self.policy()),
    {
        (
            self.local_addr,
            self.peer_addr,
            RetryPolicy { rto: self.rto, max_attempts: self.max_attempts, backoff: self.backoff },
        )
    }

    /// The client for a peer whose address was resolved to `peer_addr`, with
    /// the retry policy that was collected.
    pub fn build(self, peer_addr: SocketAddress) -> (client: Client)
        ensures
            client.peer() == peer_addr,
            client.policy() == self.policy(),
    {
        Client::new(
            peer_addr,
            RetryPolicy { rto: self.rto, max_attempts: self.max_attempts, backoff: self.backoff },
        )
    }
}

impl Default for ClientBuilder<(), ()> {
    fn default() -> (builder: ClientBuilder<(), ()>)
        ensures
            builder.policy() == (RetryPolicy {
                rto: DEFAULT_RTO,
                max_attempts: DEFAULT_MAX_ATTEMPTS,
                backoff: Backoff::Doubling,
            }),
    {
        ClientBuilder {
            local_addr: (),
            peer_addr: (),
            rto: DEFAULT_RTO,
            max_attempts: DEFAULT_MAX_ATTEMPTS,
            backoff: Backoff::Doubling,
        }
    }
}

impl ClientBuilder<(), ()> {
    /// A builder with no address, a first timeout of `DEFAULT_RTO`
    /// milliseconds, `DEFAULT_MAX_ATTEMPTS` attempts, and doubling timeouts.
    pub fn new() -> (builder: ClientBuilder<(), ()>)
        ensures
            builder.policy() == (RetryPolicy {
                rto: DEFAULT_RTO,
                max_attempts: DEFAULT_MAX_ATTEMPTS,
                backoff: Backoff::Doubling,
            }),
    {
        ClientBuilder {
            local_addr: (),
            peer_addr: (),
            rto: DEFAULT_RTO,
            max_attempts: DEFAULT_MAX_ATTEMPTS,
            backoff: Backoff::Doubling,
        }
    }

    /// Gives the local address to bind to.
    pub fn bind<L>(self, local_addr: L) -> (builder: ClientBuilder<L, ()>)
        ensures
            builder.local_addr() == local_addr,
            builder.policy() == self.policy(),
    {
        ClientBuilder {
            local_addr,
            peer_addr: (),
            rto: self.rto,
            max_attempts: self.max_attempts,
            backoff: self.backoff,
        }
    }
}

impl<L> ClientBuilder<L, ()> {
    /// Gives the address of the peer.
    pub fn connect<P>(self, peer_addr: P) -> (builder: ClientBuilder<L, P>)
        ensures
            builder.local_addr() == self.local_addr(),
            builder.peer_addr() == peer_addr,
            builder.policy() == self.policy(),
    {
        ClientBuilder {
            local_addr: self.local_addr,
            peer_addr,
            rto: self.rto,
            max_attempts: self.max_attempts,
            backoff: self.backoff,
        }
    }
}

} // verus!
