use crate::stun::address::{IpAddress, SocketAddress};
use crate::stun::message::attribute::Attribute;
use crate::stun::message::transaction_id::lemma_transaction_id_len;
use crate::stun::util::{be16, from_be16, read_be16, write_be16};
use crate::stun::message::{RawAttribute, TransactionId, MAGIC_COOKIE};
use vstd::prelude::*;

verus! {

/// The address that a peer saw a request come from, as it is carried in a
/// message: each of its bytes is combined by exclusive or with a byte of a key,
/// so that no middlebox rewrites it.
#[derive(Debug, Clone, Copy, PartialEq, Eq)]
pub struct XorMappedAddress(pub SocketAddress);

/// The family byte of a four-byte address.
pub const FAMILY_IPV4: u8 = 1;

/// The family byte of a sixteen-byte address.
pub const FAMILY_IPV6: u8 = 2;

/// The two high bytes of the magic cookie as a number: the key of the port.
pub const PORT_KEY: u16 = 0x2112;

/// The magic cookie as a sequence of bytes: the key of a four-byte address.
pub open spec fn magic_cookie() -> Seq<u8> {
    MAGIC_COOKIE@
}

/// The key of a sixteen-byte address: the magic cookie, then the identifier
/// of the transaction.
pub open spec fn xor_key(tr_id: TransactionId) -> Seq<u8> {
    magic_cookie() + tr_id@
}

/// The bytes of `key`, each combined by exclusive or with the byte of `bytes`
/// at its place.
pub open spec fn xor_bytes(bytes: Seq<u8>, key: Seq<u8>) -> Seq<u8> {
    Seq::new(key.len(), |i: int| key[i] ^ bytes[i])
}

/// The value of the attribute for a socket address.
pub open spec fn encoded_address(address: SocketAddress, tr_id: TransactionId) -> Seq<u8> {
    match address.ip {
        IpAddress::V4(octets) => seq![0u8, FAMILY_IPV4] + be16(address.port ^ PORT_KEY)
            + xor_bytes(octets@, magic_cookie()),
        IpAddress::V6(octets) => seq![0u8, FAMILY_IPV6] + be16(address.port ^ PORT_KEY)
            + xor_bytes(octets@, xor_key(tr_id)),
    }
}

/// Whether `raw` has the shape of a value of the attribute: a zero byte, a
/// family byte, two bytes of port, and as many bytes of address as the family
/// has, with nothing after them.
pub open spec fn well_shaped(raw: Seq<u8>) -> bool {
    &&& raw.len() >= 2
    &&& raw[0] == 0
    &&& (raw[1] == FAMILY_IPV4 && raw.len() == 8 || raw[1] == FAMILY_IPV6 && raw.len() == 20)
}

/// The socket address that a value of the attribute stands for, if it has the
/// shape of one.
pub open spec fn decoded_address(raw: Seq<u8>, tr_id: TransactionId) -> Option<SocketAddress> {
    if !well_shaped(raw) {
        None
    } else {
        let port = from_be16(raw[2], raw[3]) ^ PORT_KEY;
        if raw[1] == FAMILY_IPV4 {
            let o = xor_bytes(raw.subrange(4, 8), magic_cookie());
            Some(SocketAddress { ip: IpAddress::V4([o[0], o[1], o[2], o[3]]), port })
        } else {
            let o = xor_bytes(raw.subrange(4, 20), xor_key(tr_id));
            Some(
                SocketAddress {
                    ip: IpAddress::V6(
                        [
                            o[0],
                            o[1],
                            o[2],
                            o[3],
                            o[4],
                            o[5],
                            o[6],
                            o[7],
                            o[8],
                            o[9],
                            o[10],
                            o[11],
                            o[12],
                            o[13],
                            o[14],
                            o[15],
                        ],
                    ),
                    port,
                },
            )
        }
    }
}

/// The four bytes of `b`, each combined by exclusive or with the byte of `a`
/// at its place.
pub fn xor_4_bytes(a: &[u8], b: [u8; 4]) -> (xored: [u8; 4])
    requires
        a@.len() == 4,
    ensures
        xored@ == xor_bytes(a@, b@),
{
    let xored: [u8; 4] = [b[0] ^ a[0], b[1] ^ a[1], b[2] ^ a[2], b[3] ^ a[3]];
    assert(xored@ =~= xor_bytes(a@, b@));
    xored
}

/// The sixteen bytes of `b`, each combined by exclusive or with the byte of
/// `a` at its place.
pub fn xor_16_bytes(a: &[u8], b: [u8; 16]) -> (xored: [u8; 16])
    requires
        a@.len() == 16,
    ensures
        xored@ == xor_bytes(a@, b@),
{
    let mut xored: [u8; 16] = b;
    let mut i: usize = 0;
    while i < 16
        invariant
            i <= 16,
            a@.len() == 16,
            forall|j: int| 0 <= j < i ==> xored@[j] == b@[j] ^ a@[j],
            forall|j: int| i <= j < 16 ==> xored@[j] == b@[j],
        decreases 16 - i,
    {
        xored[i] = xored[i] ^ a[i];
        i += 1;
    }
    assert(xored@ =~= xor_bytes(a@, b@));
    xored
}

/// The sixteen bytes of the key of a sixteen-byte address.
fn xor_key_bytes(tr_id: &TransactionId) -> (key: [u8; 16])
    ensures
        key@ == xor_key(*tr_id),
{
    let id = tr_id.as_bytes();
    let mut key: [u8; 16] = [0u8; 16];
    let mut i: usize = 0;
    while i < 4
        invariant
            i <= 4,
            forall|j: int| 0 <= j < i ==> key@[j] == MAGIC_COOKIE@[j],
        decreases 4 - i,
    {
        key[i] = MAGIC_COOKIE[i];
        i += 1;
    }
    while i < 16
        invariant
            4 <= i <= 16,
            id@.len() == 12,
            forall|j: int| 0 <= j < 4 ==> key@[j] == MAGIC_COOKIE@[j],
            forall|j: int| 4 <= j < i ==> key@[j] == id@[j - 4],
        decreases 16 - i,
    {
        key[i] = id[i - 4];
        i += 1;
    }
    assert(key@ =~= xor_key(*tr_id));
    key
}

impl Attribute for XorMappedAddress {
    const TYPE: u16 = 0x0020;

    open spec fn decoded(raw: Seq<u8>, tr_id: TransactionId) -> Option<XorMappedAddress> {
        match decoded_address(raw, tr_id) {
            Some(address) => Some(XorMappedAddress(address)),
            None => None,
        }
    }

    open spec fn encoded(&self, tr_id: TransactionId) -> Seq<u8> {
        encoded_address(self.0, tr_id)
    }

    fn from_raw(raw: &[u8], tr_id: &TransactionId) -> (attribute: Option<XorMappedAddress>) {
        let len: usize = raw.len();
        if len < 2 || raw[0] != 0 {
            return None;
        }
        let family: u8 = raw[1];
        if !(family == FAMILY_IPV4 && len == 8 || family == FAMILY_IPV6 && len == 20) {
            return None;
        }
        let x_port: u16 = read_be16(raw[2], raw[3]);
        let port: u16 = x_port ^ PORT_KEY;
        if family == FAMILY_IPV4 {
            let x_addr = vstd::slice::slice_subrange(raw, 4, 8);
            let octets = xor_4_bytes(x_addr, MAGIC_COOKIE);
            proof {
                let o = xor_bytes(raw@.subrange(4, 8), magic_cookie());
                assert(octets =~= [o[0], o[1], o[2], o[3]]);
            }
            Some(XorMappedAddress(SocketAddress { ip: IpAddress::V4(octets), port }))
        } else {
            let x_addr = vstd::slice::slice_subrange(raw, 4, 20);
            let octets = xor_16_bytes(x_addr, xor_key_bytes(tr_id));
            proof {
                let o = xor_bytes(raw@.subrange(4, 20), xor_key(*tr_id));
                assert(octets =~= [
                    o[0],
                    o[1],
                    o[2],
                    o[3],
                    o[4],
                    o[5],
                    o[6],
                    o[7],
                    o[8],
                    o[9],
                    o[10],
                    o[11],
                    o[12],
                    o[13],
                    o[14],
                    o[15],
                ]);
            }
            Some(XorMappedAddress(SocketAddress { ip: IpAddress::V6(octets), port }))
        }
    }

    fn to_raw(&self, tr_id: &TransactionId) -> (raw: RawAttribute) {
        let x_port: u16 = self.0.port ^ PORT_KEY;
        let mut buf: Vec<u8> = Vec::new();
        buf.push(0);
        match self.0.ip {
            IpAddress::V4(octets) => {
                buf.push(FAMILY_IPV4);
                let port_bytes = write_be16(x_port);
                buf.push(port_bytes[0]);
                buf.push(port_bytes[1]);
                assert(buf@ =~= seq![0u8, FAMILY_IPV4] + be16(x_port));
                let bytes = xor_4_bytes(octets.as_slice(), MAGIC_COOKIE);
                let mut i: usize = 0;
                while i < 4
                    invariant
                        i <= 4,
                        buf@ == seq![0u8, FAMILY_IPV4] + be16(x_port) + bytes@.take(i as int),
                    decreases 4 - i,
                {
                    buf.push(bytes[i]);
                    i += 1;
                    assert(buf@ =~= seq![0u8, FAMILY_IPV4] + be16(x_port) + bytes@.take(i as int));
                }
                assert(bytes@.take(4) =~= bytes@);
            },
            IpAddress::V6(octets) => {
                buf.push(FAMILY_IPV6);
                let port_bytes = write_be16(x_port);
                buf.push(port_bytes[0]);
                buf.push(port_bytes[1]);
                assert(buf@ =~= seq![0u8, FAMILY_IPV6] + be16(x_port));
                let bytes = xor_16_bytes(octets.as_slice(), xor_key_bytes(tr_id));
                let mut i: usize = 0;
                while i < 16
                    invariant
                        i <= 16,
                        buf@ == seq![0u8, FAMILY_IPV6] + be16(x_port) + bytes@.take(i as int),
                    decreases 16 - i,
                {
                    buf.push(bytes[i]);
                    i += 1;
                    assert(buf@ =~= seq![0u8, FAMILY_IPV6] + be16(x_port) + bytes@.take(i as int));
                }
                assert(bytes@.take(16) =~= bytes@);
            },
        }
        assert(buf@ == encoded_address(self.0, *tr_id));
        RawAttribute::new(Self::TYPE, buf).unwrap()
    }
}

/// Exclusive or with a key undoes itself, on a byte.
proof fn lemma_xor_twice_u8(a: u8, k: u8)
    ensures
        k ^ (k ^ a) == a,
{
    assert(k ^ (k ^ a) == a) by (bit_vector);
}

/// Exclusive or with a key undoes itself, on a port.
proof fn lemma_xor_twice_u16(a: u16, k: u16)
    ensures
        (a ^ k) ^ k == a,
{
    assert((a ^ k) ^ k == a) by (bit_vector);
}

/// Exclusive or with a key undoes itself, on bytes as long as the key.
pub proof fn lemma_xor_bytes_twice(bytes: Seq<u8>, key: Seq<u8>)
    requires
        bytes.len() == key.len(),
    ensures
        xor_bytes(xor_bytes(bytes, key), key) == bytes,
{
    assert forall|i: int| 0 <= i < key.len() implies xor_bytes(xor_bytes(bytes, key), key)[i]
        == bytes[i] by {
        lemma_xor_twice_u8(bytes[i], key[i]);
    }
    assert(xor_bytes(xor_bytes(bytes, key), key) =~= bytes);
}

/// The transform is its own inverse, one way: the value written for an
/// address, read with the same transaction identifier, gives the address
/// back, in both families.
pub proof fn lemma_decode_encoded_address(address: SocketAddress, tr_id: TransactionId)
    ensures
        well_shaped(encoded_address(address, tr_id)),
        decoded_address(encoded_address(address, tr_id), tr_id) == Some(address),
{
    let raw = encoded_address(address, tr_id);
    let x_port = address.port ^ PORT_KEY;
    lemma_transaction_id_len(tr_id);
    lemma_xor_twice_u16(address.port, PORT_KEY);
    assert(from_be16(raw[2], raw[3]) == x_port);
    match address.ip {
        IpAddress::V4(octets) => {
            assert(raw.len() == 8);
            assert(raw.subrange(4, 8) =~= xor_bytes(octets@, magic_cookie()));
            lemma_xor_bytes_twice(octets@, magic_cookie());
            let o = xor_bytes(raw.subrange(4, 8), magic_cookie());
            assert(o == octets@);
            assert(octets =~= [o[0], o[1], o[2], o[3]]);
        },
        IpAddress::V6(octets) => {
            assert(raw.len() == 20);
            assert(raw.subrange(4, 20) =~= xor_bytes(octets@, xor_key(tr_id)));
            lemma_xor_bytes_twice(octets@, xor_key(tr_id));
            let o = xor_bytes(raw.subrange(4, 20), xor_key(tr_id));
            assert(o == octets@);
            assert(octets =~= [
                o[0],
                o[1],
                o[2],
                o[3],
                o[4],
                o[5],
                o[6],
                o[7],
                o[8],
                o[9],
                o[10],
                o[11],
                o[12],
                o[13],
                o[14],
                o[15],
            ]);
        },
    }
}

/// The transform is its own inverse, the other way: a value that reads as an
/// address is the value written for that address with the same transaction
/// identifier.
pub proof fn lemma_encode_decoded_address(raw: Seq<u8>, tr_id: TransactionId)
    requires
        well_shaped(raw),
    ensures
        decoded_address(raw, tr_id) is Some,
        encoded_address(decoded_address(raw, tr_id)->Some_0, tr_id) == raw,
{
    let address = decoded_address(raw, tr_id)->Some_0;
    let x_port = from_be16(raw[2], raw[3]);
    lemma_transaction_id_len(tr_id);
    lemma_xor_twice_u16(x_port, PORT_KEY);
    assert(be16(x_port) =~= seq![raw[2], raw[3]]);
    if raw[1] == FAMILY_IPV4 {
        lemma_xor_bytes_twice(raw.subrange(4, 8), magic_cookie());
        let o = xor_bytes(raw.subrange(4, 8), magic_cookie());
        assert(address.ip.octets() =~= o);
        assert(encoded_address(address, tr_id) =~= raw);
    } else {
        lemma_xor_bytes_twice(raw.subrange(4, 20), xor_key(tr_id));
        let o = xor_bytes(raw.subrange(4, 20), xor_key(tr_id));
        assert(address.ip.octets() =~= o);
        assert(encoded_address(address, tr_id) =~= raw);
    }
}

} // verus!
