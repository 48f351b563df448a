//! Small operations on bytes that the messages and the codec share.

use vstd::prelude::*;

verus! {

/// Whether two slices hold the same bytes.
pub fn same_bytes(a: &[u8], b: &[u8]) -> (same: bool)
    ensures
        same == (a@ == b@),
{
    if a.len() != b.len() {
        return false;
    }
    let mut i: usize = 0;
    while i < a.len()
        invariant
            i <= a.len(),
            a.len() == b.len(),
            forall|j: int| 0 <= j < i ==> a@[j] == b@[j],
        decreases a.len() - i,
    {
        if a[i] != b[i] {
            return false;
        }
        i += 1;
    }
    assert(a@ =~= b@);
    true
}

/// The two bytes of a 16-bit number, high byte first.
pub open spec fn be16(x: u16) -> Seq<u8> {
    seq![(x / 256) as u8, (x % 256) as u8]
}

/// The 16-bit number of two bytes, high byte first.
pub open spec fn from_be16(high: u8, low: u8) -> u16 {
    (high * 256 + low) as u16
}

/// The two bytes of a 16-bit number, high byte first.
pub fn write_be16(x: u16) -> (bytes: [u8; 2])
    ensures
        bytes@ == be16(x),
{
    let bytes: [u8; 2] = [(x / 256) as u8, (x % 256) as u8];
    assert(bytes@ =~= be16(x));
    bytes
}

/// The 16-bit number of two bytes, high byte first.
pub fn read_be16(high: u8, low: u8) -> (x: u16)
    ensures
        x == from_be16(high, low),
{
    high as u16 * 256 + low as u16
}

/// A 16-bit number is read back from its two bytes, and two bytes are
/// written back from their number.
pub proof fn lemma_be16_round_trip(x: u16, high: u8, low: u8)
    ensures
        from_be16(be16(x)[0], be16(x)[1]) == x,
        be16(from_be16(high, low)) == seq![high, low],
{
    assert(be16(from_be16(high, low)) =~= seq![high, low]);
}

} // verus!
