//! The dispatcher: the one owner of the table of outstanding requests. It
//! takes one item at a time, from the client or from the network, and says
//! what is to be done about it; whoever runs it does that and comes back
//! with the next item.

use crate::stun::address::SocketAddress;
use crate::stun::client::registry::{TransactionKey, TransactionTable};
use crate::stun::message::Message;
use vstd::prelude::*;

verus! {

/// An item that the dispatcher takes.
pub enum DispatcherMessage<C> {
    /// A request is about to be sent: its response goes to this channel.
    NewTransaction(TransactionKey, C),
    /// The one who waited for this request has given up.
    RemoveTransaction(TransactionKey),
    /// A message came from this address.
    Recv(Message, SocketAddress),
    /// Something came that was not a message.
    RecvFailed,
    /// The client is gone.
    Close,
}

/// What is to be done about an item.
pub enum Dispatch<C> {
    /// Nothing but to go on with the next item. A channel that left the
    /// table without a message is released here, to be dropped.
    Continue { released: Option<C> },
    /// `message` is to be sent on `channel`; then go on with the next item.
    Deliver { channel: C, message: Message },
    /// No item is taken any more. The channels of those that still waited
    /// are released here, to be dropped.
    Stop { cancelled: Vec<C> },
}

/// The dispatcher. `C` is the single-use channel of a waiting request.
pub struct Dispatcher<C> {
    transactions: TransactionTable<C>,
}

impl<C> View for Dispatcher<C> {
    type V = Map<TransactionKey, C>;

    /// The outstanding requests: the channel of each key.
    closed spec fn view(&self) -> Map<TransactionKey, C> {
        self.transactions@
    }
}

impl<C> Dispatcher<C> {
    /// Whether the dispatcher has stopped.
    pub closed spec fn closed(self) -> bool {
        self.transactions.closed()
    }

    /// A dispatcher with no outstanding request.
    pub fn new() -> (dispatcher: Dispatcher<C>)
        ensures
            dispatcher@ == Map::<TransactionKey, C>::empty(),
            !dispatcher.closed(),
    {
        Dispatcher { transactions: TransactionTable::new() }
    }

    /// The table of outstanding requests, to look at.
    pub fn transactions(&self) -> (table: &TransactionTable<C>)
        ensures
            table@ == self@,
            table.closed() == self.closed(),
    {
        &self.transactions
    }

    /// Takes one item and says what is to be done about it.
    pub fn handle(&mut self, item: DispatcherMessage<C>) -> (action: Dispatch<C>)
        ensures
            match item {
                DispatcherMessage::NewTransaction(key, channel) => {
                    &&& final(self).closed() == old(self).closed()
                    &&& !old(self).closed() ==> final(self)@ == old(self)@.insert(key, channel)
                        && action == (Dispatch::Continue {
                        released: if old(self)@.contains_key(key) {
                            Some(old(self)@[key])
                        } else {
                            None
                        },
                    })
                    &&& old(self).closed() ==> final(self)@ == old(self)@ && action == (
                    Dispatch::Continue { released: Some(channel) })
                },
                DispatcherMessage::RemoveTransaction(key) => {
                    &&& final(self).closed() == old(self).closed()
                    &&& final(self)@ == old(self)@.remove(key)
                    &&& action == (Dispatch::Continue {
                        released: if old(self)@.contains_key(key) {
                            Some(old(self)@[key])
                        } else {
                            None
                        },
                    })
                },
                DispatcherMessage::Recv(message, peer) => {
                    let key = TransactionKey { transaction_id: message.transaction_id, peer };
                    &&& final(self).closed() == old(self).closed()
                    &&& final(self)@ == old(self)@.remove(key)
                    &&& action == if old(self)@.contains_key(key) {
                        Dispatch::Deliver { channel: old(self)@[key], message }
                    } else {
                        Dispatch::Continue { released: None }
                    }
                },
                DispatcherMessage::RecvFailed => {
                    &&& final(self).closed() == old(self).closed()
                    &&& final(self)@ == old(self)@
                    &&& action == Dispatch::<C>::Continue { released: None }
                },
                DispatcherMessage::Close => {
                    &&& final(self).closed()
                    &&& final(self)@ == Map::<TransactionKey, C>::empty()
                    &&& action matches Dispatch::Stop { cancelled: released }
                    &&& released@.len() == old(self).transactions_count()
                    &&& forall|key: TransactionKey|
                        old(self)@.contains_key(key) ==> released@.contains(
                            #[trigger] old(self)@[key],
                        )
                    &&& forall|i: int|
                        0 <= i < released@.len() ==> old(self)@.values().contains(
                            #[trigger] released@[i],
                        )
                },
            },
    {
        match item {
            DispatcherMessage::NewTransaction(key, channel) => {
                match self.transactions.register(key, channel) {
                    Ok(previous) => Dispatch::Continue { released: previous },
                    Err(channel) => Dispatch::Continue { released: Some(channel) },
                }
            },
            DispatcherMessage::RemoveTransaction(key) => {
                Dispatch::Continue { released: self.transactions.remove(key) }
            },
            DispatcherMessage::Recv(message, peer) => {
                match self.transactions.deliver(message, peer) {
                    Some((channel, message)) => Dispatch::Deliver { channel, message },
                    None => Dispatch::Continue { released: None },
                }
            },
            DispatcherMessage::RecvFailed => Dispatch::Continue { released: None },
            DispatcherMessage::Close => Dispatch::Stop { cancelled: self.transactions.close() },
        }
    }

    /// The number of outstanding requests.
    pub closed spec fn transactions_count(self) -> nat {
        self.transactions.count()
    }
}

/// Turns what came from the network into an item for the dispatcher: a
/// message from `addr` is taken, a message from elsewhere is dropped, and
/// what was not a message (`None`) is handed on as such.
pub fn filter_addr<C>(received: Option<(Message, SocketAddress)>, addr: &SocketAddress) -> (item:
    Option<DispatcherMessage<C>>)
    ensures
        item == match received {
            Some((message, from)) => if from == *addr {
                Some(DispatcherMessage::<C>::Recv(message, from))
            } else {
                None
            },
            None => Some(DispatcherMessage::<C>::RecvFailed),
        },
{
    match received {
        Some((message, from)) => {
            if from.same(addr) {
                Some(DispatcherMessage::Recv(message, from))
            } else {
                None
            }
        },
        None => Some(DispatcherMessage::RecvFailed),
    }
}

} // verus!
