//! The table of outstanding requests: who waits for the response to which
//! transaction.

use crate::stun::address::SocketAddress;
use crate::stun::message::{Message, TransactionId};
use vstd::prelude::*;

verus! {

/// What a response is matched by: the identifier of its transaction and the
/// address of the peer that it came from. The address belongs to the key,
/// since an identifier is unique for one requester only.
#[derive(Debug, Clone, Copy, PartialEq, Eq, Hash)]
pub struct TransactionKey {
    pub transaction_id: TransactionId,
    pub peer: SocketAddress,
}

impl TransactionKey {
    pub fn new(transaction_id: TransactionId, peer: SocketAddress) -> (key: TransactionKey)
        ensures
            key == (TransactionKey { transaction_id, peer }),
    {
        TransactionKey { transaction_id, peer }
    }

    /// Whether two keys hold the same identifier and the same address.
    pub fn same(&self, other: &TransactionKey) -> (same: bool)
        ensures
            same == (*self == *other),
    {
        self.transaction_id.same(&other.transaction_id) && self.peer.same(&other.peer)
    }
}

/// One outstanding request: its key and the channel that its response goes to.
struct Entry<C> {
    key: TransactionKey,
    channel: C,
}

/// Whether some entry has the key.
spec fn holds<C>(entries: Seq<Entry<C>>, key: TransactionKey) -> bool {
    exists|i: int| 0 <= i < entries.len() && (#[trigger] entries[i]).key == key
}

/// The place of an entry that has the key.
spec fn place<C>(entries: Seq<Entry<C>>, key: TransactionKey) -> int {
    choose|i: int| 0 <= i < entries.len() && (#[trigger] entries[i]).key == key
}

/// Whether no two entries have the same key.
spec fn distinct<C>(entries: Seq<Entry<C>>) -> bool {
    forall|i: int, j: int|
        0 <= i < j < entries.len() ==> (#[trigger] entries[i]).key != (#[trigger] entries[j]).key
}

/// The entries as a map from key to channel.
spec fn as_map<C>(entries: Seq<Entry<C>>) -> Map<TransactionKey, C> {
    Map::new(
        |key: TransactionKey| holds(entries, key),
        |key: TransactionKey| entries[place(entries, key)].channel,
    )
}

/// The table of outstanding requests. `C` is the single-use channel on which
/// the one who waits is handed the response; the table only keeps it, and
/// gives it out at most once. A channel that is dropped tells its waiter that
/// the request was cancelled.
pub struct TransactionTable<C> {
    entries: Vec<Entry<C>>,
    closed: bool,
}

impl<C> View for TransactionTable<C> {
    type V = Map<TransactionKey, C>;

    /// The outstanding requests: the channel of each key.
    closed spec fn view(&self) -> Map<TransactionKey, C> {
        as_map(self.entries@)
    }
}

impl<C> TransactionTable<C> {
    #[verifier::type_invariant]
    spec fn inv(self) -> bool {
        &&& distinct(self.entries@)
        &&& self.closed ==> self.entries@.len() == 0
    }

    /// Whether the table was closed.
    pub closed spec fn closed(self) -> bool {
        self.closed
    }

    /// The number of entries that the table keeps.
    pub closed spec fn count(self) -> nat {
        self.entries@.len()
    }

    /// An open table without entries.
    pub fn new() -> (table: TransactionTable<C>)
        ensures
            table@ == Map::<TransactionKey, C>::empty(),
            table.count() == 0,
            !table.closed(),
    {
        let table = TransactionTable { entries: Vec::new(), closed: false };
        assert(table@ =~= Map::<TransactionKey, C>::empty());
        table
    }

    /// The place of the entry of `key`, if there is one.
    fn position(&self, key: &TransactionKey) -> (found: Option<usize>)
        ensures
            match found {
                Some(i) => i < self.entries@.len() && self.entries@[i as int].key == *key,
                None => !holds(self.entries@, *key),
            },
    {
        let mut i: usize = 0;
        while i < self.entries.len()
            invariant
                i <= self.entries.len(),
                forall|j: int| 0 <= j < i ==> (#[trigger] self.entries@[j]).key != *key,
            decreases self.entries.len() - i,
        {
            if self.entries[i].key.same(key) {
                return Some(i);
            }
            i += 1;
        }
        None
    }

    /// Whether a request of this key is outstanding.
    pub fn contains(&self, key: &TransactionKey) -> (held: bool)
        ensures
            held == self@.contains_key(*key),
    {
        self.position(key).is_some()
    }

    /// The number of outstanding requests.
    pub fn len(&self) -> (len: usize)
        ensures
            len == self.count(),
            len == 0 <==> self@ == Map::<TransactionKey, C>::empty(),
    {
        proof {
            lemma_empty_map(self.entries@);
        }
        self.entries.len()
    }

    /// Whether no request is outstanding.
    pub fn is_empty(&self) -> (empty: bool)
        ensures
            empty == (self@ == Map::<TransactionKey, C>::empty()),
            empty == (self.count() == 0),
    {
        proof {
            lemma_empty_map(self.entries@);
        }
        self.entries.len() == 0
    }

    /// Whether the table was closed.
    pub fn is_closed(&self) -> (closed: bool)
        ensures
            closed == self.closed(),
    {
        self.closed
    }

    /// Registers the intent to wait: from now on a response that matches
    /// `key` goes to `channel`. This must be done before the request is
    /// sent, or a fast response finds no entry and is dropped.
    ///
    /// `Ok` holds the channel that `key` had before, if it had one: the new
    /// one takes its place. A closed table takes no entry, and gives the
    /// channel back in `Err`.
    pub fn register(&mut self, key: TransactionKey, channel: C) -> (previous: Result<Option<C>, C>)
        ensures
            final(self).closed() == old(self).closed(),
            !old(self).closed() ==> {
                &&& final(self)@ == old(self)@.insert(key, channel)
                &&& previous == Ok::<Option<C>, C>(
                    if old(self)@.contains_key(key) {
                        Some(old(self)@[key])
                    } else {
                        None
                    },
                )
            },
            old(self).closed() ==> {
                &&& final(self)@ == old(self)@
                &&& previous == Err::<Option<C>, C>(channel)
            },
    {
        proof {
            use_type_invariant(&*self);
        }
        if self.closed {
            return Err(channel);
        }
        let found = self.position(&key);
        let mut entries: Vec<Entry<C>> = Vec::new();
        core::mem::swap(&mut entries, &mut self.entries);
        let previous: Option<C> = match found {
            Some(i) => {
                proof {
                    lemma_remove(entries@, i as int);
                }
                Some(entries.remove(i).channel)
            },
            None => None,
        };
        proof {
            lemma_push(entries@, Entry { key, channel });
        }
        entries.push(Entry { key, channel });
        self.entries = entries;
        assert(self@ =~= old(self)@.insert(key, channel));
        Ok(previous)
    }

    /// Matches an incoming message to the one who waits for it. Where a
    /// request with the identifier of `message` to `peer` is outstanding, its
    /// entry leaves the table and its channel is handed out with the
    /// message, to be sent on it: so a channel gets at most one message.
    /// Otherwise the message is discarded, and that is no error.
    pub fn deliver(&mut self, message: Message, peer: SocketAddress) -> (delivery: Option<
        (C, Message),
    >)
        ensures
            final(self).closed() == old(self).closed(),
            final(self)@ == old(self)@.remove(TransactionKey {
                transaction_id: message.transaction_id,
                peer,
            }),
            match delivery {
                Some((channel, delivered)) => {
                    &&& old(self)@.contains_key(
                        TransactionKey { transaction_id: message.transaction_id, peer },
                    )
                    &&& channel == old(self)@[TransactionKey {
                        transaction_id: message.transaction_id,
                        peer,
                    }]
                    &&& delivered == message
                },
                None => !old(self)@.contains_key(
                    TransactionKey { transaction_id: message.transaction_id, peer },
                ),
            },
    {
        let key = TransactionKey { transaction_id: message.transaction_id, peer };
        match self.remove(key) {
            Some(channel) => Some((channel, message)),
            None => None,
        }
    }

    /// Cancels a request: its entry leaves the table, so that a late
    /// response is not handed to one who has given up, and the table does
    /// not grow without bound. The channel of the entry is handed out, if
    /// there was one.
    pub fn remove(&mut self, key: TransactionKey) -> (channel: Option<C>)
        ensures
            final(self).closed() == old(self).closed(),
            final(self)@ == old(self)@.remove(key),
            channel == if old(self)@.contains_key(key) {
                Some(old(self)@[key])
            } else {
                None
            },
    {
        proof {
            use_type_invariant(&*self);
        }
        match self.position(&key) {
            Some(i) => {
                let mut entries: Vec<Entry<C>> = Vec::new();
                core::mem::swap(&mut entries, &mut self.entries);
                proof {
                    lemma_remove(entries@, i as int);
                }
                let entry = entries.remove(i);
                self.entries = entries;
                Some(entry.channel)
            },
            None => {
                assert(self@ =~= old(self)@.remove(key));
                None
            },
        }
    }

    /// Closes the table for good: every entry leaves it, and it takes no
    /// entry from now on, so that nothing is delivered any more. The channels
    /// of those that still waited are handed out, to be dropped: their
    /// waiters then see the cancellation and do not hang.
    pub fn close(&mut self) -> (channels: Vec<C>)
        ensures
            final(self).closed(),
            final(self)@ == Map::<TransactionKey, C>::empty(),
            final(self).count() == 0,
            channels@.len() == old(self).count(),
            forall|key: TransactionKey|
                old(self)@.contains_key(key) ==> channels@.contains(#[trigger] old(self)@[key]),
            forall|i: int|
                0 <= i < channels@.len() ==> old(self)@.values().contains(#[trigger] channels@[i]),
    {
        proof {
            use_type_invariant(&*self);
        }
        let mut channels: Vec<C> = Vec::new();
        let mut entries: Vec<Entry<C>> = Vec::new();
        core::mem::swap(&mut entries, &mut self.entries);
        self.closed = true;
        let ghost all = entries@;
        assert(self@ =~= Map::<TransactionKey, C>::empty());
        while entries.len() > 0
            invariant
                distinct(all),
                channels@.len() + entries@.len() == all.len(),
                forall|i: int|
                    0 <= i < channels@.len() ==> channels@[i] == (#[trigger] all[all.len() - 1
                        - i]).channel,
                forall|i: int| 0 <= i < entries@.len() ==> entries@[i] == all[i],
            decreases entries@.len(),
        {
            let entry = entries.pop().unwrap();
            channels.push(entry.channel);
        }
        proof {
            assert forall|key: TransactionKey| old(self)@.contains_key(key) implies channels@.contains(
                #[trigger] old(self)@[key],
            ) by {
                let p = place(all, key);
                let i = all.len() - 1 - p;
                assert(channels@[i] == all[all.len() - 1 - i].channel);
            }
            assert forall|i: int| 0 <= i < channels@.len() implies old(self)@.values().contains(
                #[trigger] channels@[i],
            ) by {
                let p = all.len() - 1 - i;
                lemma_place(all, p);
                assert(old(self)@.contains_key(all[p].key));
                assert(old(self)@[all[p].key] == channels@[i]);
            }
        }
        channels
    }
}

/// A channel gets at most one message: once the entry of a key has left the
/// table, by a delivery or a removal, a second delivery for the key finds
/// nothing and leaves the table as it is.
pub proof fn lemma_second_delivery_finds_nothing<C>(
    table: Map<TransactionKey, C>,
    key: TransactionKey,
)
    ensures
        !table.remove(key).contains_key(key),
        table.remove(key).remove(key) == table.remove(key),
{
    assert(table.remove(key).remove(key) =~= table.remove(key));
}

/// Where no two keys are the same, an entry is found at its own place.
proof fn lemma_place<C>(entries: Seq<Entry<C>>, i: int)
    requires
        distinct(entries),
        0 <= i < entries.len(),
    ensures
        holds(entries, entries[i].key),
        place(entries, entries[i].key) == i,
        as_map(entries).contains_key(entries[i].key),
        as_map(entries)[entries[i].key] == entries[i].channel,
{
    let j = place(entries, entries[i].key);
    if j < i {
        assert(entries[j].key != entries[i].key);
    } else if i < j {
        assert(entries[i].key != entries[j].key);
    }
}

/// Only the empty sequence of entries is the empty map.
proof fn lemma_empty_map<C>(entries: Seq<Entry<C>>)
    ensures
        entries.len() == 0 <==> as_map(entries) == Map::<TransactionKey, C>::empty(),
{
    if entries.len() == 0 {
        assert(as_map(entries) =~= Map::<TransactionKey, C>::empty());
    } else {
        assert(holds(entries, entries[0].key));
        assert(as_map(entries).contains_key(entries[0].key));
    }
}

/// An entry with a new key, put at the end, is an insertion into the map.
proof fn lemma_push<C>(entries: Seq<Entry<C>>, entry: Entry<C>)
    requires
        distinct(entries),
        !holds(entries, entry.key),
    ensures
        distinct(entries.push(entry)),
        as_map(entries.push(entry)) == as_map(entries).insert(entry.key, entry.channel),
{
    let longer = entries.push(entry);
    assert forall|i: int, j: int| 0 <= i < j < longer.len() implies (#[trigger] longer[i]).key != (
    #[trigger] longer[j]).key by {
        if j == entries.len() {
            assert(longer[i] == entries[i]);
        } else {
            assert(longer[i] == entries[i]);
            assert(longer[j] == entries[j]);
        }
    }
    assert forall|key: TransactionKey| #[trigger]
        as_map(longer).contains_key(key) == as_map(entries).insert(
            entry.key,
            entry.channel,
        ).contains_key(key) by {
        if holds(longer, key) {
            let p = place(longer, key);
            if p < entries.len() {
                assert(entries[p].key == key);
            }
        }
        if holds(entries, key) {
            let p = place(entries, key);
            assert(longer[p].key == key);
        }
        if key == entry.key {
            assert(longer[entries.len() as int].key == key);
        }
    }
    assert forall|key: TransactionKey| #[trigger] as_map(longer).contains_key(key) implies as_map(
        longer,
    )[key] == as_map(entries).insert(entry.key, entry.channel)[key] by {
        let p = place(longer, key);
        lemma_place(longer, p);
        if p < entries.len() {
            assert(longer[p] == entries[p]);
            lemma_place(entries, p);
        }
    }
    assert(as_map(longer) =~= as_map(entries).insert(entry.key, entry.channel));
}

/// Taking an entry out is a removal of its key from the map.
proof fn lemma_remove<C>(entries: Seq<Entry<C>>, i: int)
    requires
        distinct(entries),
        0 <= i < entries.len(),
    ensures
        distinct(entries.remove(i)),
        !holds(entries.remove(i), entries[i].key),
        as_map(entries).contains_key(entries[i].key),
        as_map(entries)[entries[i].key] == entries[i].channel,
        as_map(entries.remove(i)) == as_map(entries).remove(entries[i].key),
{
    let shorter = entries.remove(i);
    let gone = entries[i].key;
    lemma_place(entries, i);
    assert forall|j: int| 0 <= j < shorter.len() implies (#[trigger] shorter[j]) == entries[if j
        < i {
        j
    } else {
        j + 1
    }] by {}
    assert forall|a: int, b: int| 0 <= a < b < shorter.len() implies (#[trigger] shorter[a]).key
        != (#[trigger] shorter[b]).key by {
        let first = if a < i { a } else { a + 1 };
        let second = if b < i { b } else { b + 1 };
        assert(entries[first].key != entries[second].key);
    }
    if holds(shorter, gone) {
        let p = place(shorter, gone);
        let moved = if p < i { p } else { p + 1 };
        assert(shorter[p] == entries[moved]);
        if moved < i {
            assert(entries[moved].key != entries[i].key);
        } else {
            assert(entries[i].key != entries[moved].key);
        }
    }
    assert forall|key: TransactionKey| #[trigger]
        as_map(shorter).contains_key(key) == as_map(entries).remove(gone).contains_key(key) by {
        if holds(shorter, key) {
            let p = place(shorter, key);
            let moved = if p < i { p } else { p + 1 };
            assert(entries[moved].key == key);
        }
        if holds(entries, key) && key != gone {
            let p = place(entries, key);
            let moved = if p < i { p } else { p - 1 };
            assert(shorter[moved].key == key);
        }
    }
    assert forall|key: TransactionKey| #[trigger] as_map(shorter).contains_key(key) implies as_map(
        shorter,
    )[key] == as_map(entries).remove(gone)[key] by {
        let p = place(shorter, key);
        lemma_place(shorter, p);
        let moved = if p < i { p } else { p + 1 };
        lemma_place(entries, moved);
    }
    assert(as_map(shorter) =~= as_map(entries).remove(gone));
}

} // verus!
