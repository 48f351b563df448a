use crate::stun::util::same_bytes;
use vstd::prelude::*;

verus! {

/// The 96-bit identifier of a transaction, chosen by the one who sends the request.
#[derive(Clone, Copy, Debug, Eq, Hash, PartialEq)]
pub struct TransactionId([u8; 12]);

impl View for TransactionId {
    type V = Seq<u8>;

    closed spec fn view(&self) -> Seq<u8> {
        self.0@
    }
}

impl TransactionId {
    pub fn new(bytes: [u8; 12]) -> (id: TransactionId)
        ensures
            id@ == bytes@,
    {
        TransactionId(bytes)
    }

    /// The identifier that holds twelve given bytes.
    pub closed spec fn of_bytes(bytes: Seq<u8>) -> TransactionId {
        TransactionId(
            [
                bytes[0],
                bytes[1],
                bytes[2],
                bytes[3],
                bytes[4],
                bytes[5],
                bytes[6],
                bytes[7],
                bytes[8],
                bytes[9],
                bytes[10],
                bytes[11],
            ],
        )
    }

    /// The identifier that holds the twelve bytes of a slice.
    pub fn from_slice(bytes: &[u8]) -> (id: TransactionId)
        requires
            bytes@.len() == 12,
        ensures
            id@ == bytes@,
            id == TransactionId::of_bytes(bytes@),
    {
        let mut held: [u8; 12] = [0u8; 12];
        let mut i: usize = 0;
        while i < 12
            invariant
                i <= 12,
                bytes@.len() == 12,
                forall|j: int| 0 <= j < i ==> held@[j] == bytes@[j],
            decreases 12 - i,
        {
            held[i] = bytes[i];
            i += 1;
        }
        assert(held@ =~= bytes@);
        assert(held =~= TransactionId::of_bytes(bytes@).0);
        TransactionId(held)
    }

    pub fn as_bytes(&self) -> (bytes: &[u8; 12])
        ensures
            bytes@ == self@,
    {
        &self.0
    }

    /// Whether two identifiers hold the same twelve bytes.
    pub fn same(&self, other: &TransactionId) -> (same: bool)
        ensures
            same == (self@ == other@),
            same == (*self == *other),
    {
        proof {
            lemma_transaction_id_by_bytes(*self, *other);
        }
        same_bytes(self.0.as_slice(), other.0.as_slice())
    }
}

/// An identifier always holds twelve bytes.
pub proof fn lemma_transaction_id_len(id: TransactionId)
    ensures
        id@.len() == 12,
{
}

/// Two identifiers are the same exactly when their bytes are.
pub proof fn lemma_transaction_id_by_bytes(a: TransactionId, b: TransactionId)
    ensures
        (a@ == b@) <==> (a == b),
{
    if a@ == b@ {
        assert(a.0@ =~= b.0@);
        assert(a.0 =~= b.0);
    }
}

/// The identifier made of twelve bytes holds them.
pub proof fn lemma_transaction_id_of_bytes(bytes: Seq<u8>)
    requires
        bytes.len() == 12,
    ensures
        TransactionId::of_bytes(bytes)@ == bytes,
{
    assert(TransactionId::of_bytes(bytes).0@ =~= bytes);
}

} // verus!
