//! The decisions of a client: which request waits for which response, when
//! a request is sent again or given up, and what a response says.

pub mod builder;
pub mod dispatcher;
pub mod registry;
pub mod retry;

pub use self::builder::ClientBuilder;
pub use self::dispatcher::{Dispatch, Dispatcher, DispatcherMessage};
pub use self::registry::{TransactionKey, TransactionTable};
pub use self::retry::{Backoff, Request, RequestAction, RequestEvent, RequestState, RetryPolicy};

use crate::stun::address::SocketAddress;
use crate::stun::error::Error;
use crate::stun::message::attribute::XorMappedAddress;
use crate::stun::message::{Class, Message, MessageView, Method, RawAttributeView, TransactionId};
use vstd::prelude::*;

verus! {

/// What a client knows before any request is made: the peer that it talks
/// to and its retry policy. Sending, receiving and waiting are done by
/// whoever runs the client; the client says what is to be done.
#[derive(Debug, Clone, Copy)]
pub struct Client {
    peer_addr: SocketAddress,
    policy: RetryPolicy,
}

impl Client {
    /// The address of the peer.
    pub closed spec fn peer(self) -> SocketAddress {
        self.peer_addr
    }

    /// The retry policy.
    pub closed spec fn policy(self) -> RetryPolicy {
        self.policy
    }

    pub fn new(peer_addr: SocketAddress, policy: RetryPolicy) -> (client: Client)
        ensures
            client.peer() == peer_addr,
            client.policy() == policy,
    {
        Client { peer_addr, policy }
    }

    /// The address of the peer.
    pub fn peer_addr(&self) -> (peer: SocketAddress)
        ensures
            peer == self.peer(),
    {
        self.peer_addr
    }

    /// Begins a request: nothing is sent yet, and every attempt of the
    /// request will be matched by the identifier of `message` and the
    /// address of the peer.
    pub fn request(&self, message: &Message) -> (request: Request)
        ensures
            request.policy() == self.policy(),
            request.key() == (TransactionKey {
                transaction_id: message.transaction_id,
                peer: self.peer(),
            }),
            request.state() == RequestState::Idle,
    {
        Request::new(self.policy, TransactionKey::new(message.transaction_id, self.peer_addr))
    }

    /// What a binding request came to: the address that the peer saw the
    /// request come from, where the request got a response and the response
    /// holds that address; `Error::MissingAttribute` where it got a response
    /// without it; the error of the request where it got none.
    pub fn binding(&self, outcome: Result<Message, Error>) -> (address: Result<SocketAddress, Error>)
        ensures
            address == match outcome {
                Ok(response) => reflexive_address(response@),
                Err(error) => Err(error),
            },
    {
        match outcome {
            Ok(response) => match response.attr::<XorMappedAddress>() {
                Some(attribute) => Ok(attribute.0),
                None => Err(Error::MissingAttribute),
            },
            Err(error) => Err(error),
        }
    }
}

/// The address that a response to a binding request tells of, or that it
/// tells of none.
pub open spec fn reflexive_address(response: MessageView) -> Result<SocketAddress, Error> {
    match response.attr::<XorMappedAddress>() {
        Some(attribute) => Ok(attribute.0),
        None => Err(Error::MissingAttribute),
    }
}

/// A binding request: a request of the binding method, without attributes.
pub fn new_message(transaction_id: TransactionId) -> (message: Message)
    ensures
        message@.class == Class::Request,
        message@.method == Method::of_bytes(0, 1),
        message@.transaction_id == transaction_id,
        message@.attributes == Seq::<RawAttributeView>::empty(),
{
    Message::new(Class::Request, Method::binding(), transaction_id)
}

} // verus!
