//! What holds of the wire format: a message that was written is read back,
//! however its bytes arrive.

use crate::stun::address::SocketAddress;
use crate::stun::codec::encoder::{lemma_attributes_len_aligned, lemma_encoded_attributes_len};
use crate::stun::codec::{
    attributes_len, decoded_class, decoded_method, encodable, encoded_attribute, encoded_attributes,
    encoded_class_and_method, encoded_header, encoded_message, header_in_order, header_violation,
    outcome, parsed_attribute, parsed_attributes, parsed_header, values_in_bounds, Header, Outcome,
    Parsed, HEADER_LEN, MAX_ATTRS_LEN,
};
use crate::stun::message::attribute::xor_mapped_address::{
    encoded_address, lemma_decode_encoded_address,
};
use crate::stun::message::attribute::{Attribute, XorMappedAddress};
use crate::stun::message::class::lemma_class_of_bits_of_class;
use crate::stun::message::method::lemma_method_of_own_bytes;
use crate::stun::message::transaction_id::{
    lemma_transaction_id_by_bytes, lemma_transaction_id_len, lemma_transaction_id_of_bytes,
};
use crate::stun::message::{
    first_of_type, Class, MessageView, Method, RawAttribute, RawAttributeView, TransactionId,
    MAGIC_COOKIE,
};
use crate::stun::util::{be16, from_be16, lemma_be16_round_trip};
use vstd::prelude::*;

verus! {

/// Whether a message is one that the codec writes and reads back: its
/// method is valid, each value is within `RawAttribute::MAX_LEN` bytes, and
/// the attributes fit under the bound on their length.
pub open spec fn valid_message(message: MessageView) -> bool {
    &&& message.method.wf()
    &&& values_in_bounds(message.attributes)
    &&& encodable(message)
}

/// The header that is written for a message.
pub open spec fn header_of(message: MessageView) -> Header {
    Header {
        class: message.class,
        method: message.method,
        attrs_len: attributes_len(message.attributes) as u16,
        transaction_id: message.transaction_id,
    }
}

/// The packing of class and method into two bytes loses nothing, and leaves
/// the two high bits at zero.
proof fn lemma_class_and_method_bits(c: u8, m0: u8, m1: u8)
    requires
        c <= 0b11,
        m0 <= 0b1111,
    ensures
        ({
            let first = (m0 << 2) | ((m1 >> 7) << 1) | (c >> 1);
            let second = ((m1 & 0b0111_0000) << 1) | ((c & 0b1) << 4) | (m1 & 0b1111);
            &&& first & 0b1100_0000 == 0
            &&& ((first & 0b1) << 1) | ((second >> 4) & 0b1) == c
            &&& (first >> 2) & 0b1111 == m0
            &&& ((first & 0b10) << 6) | ((second & 0b1110_0000) >> 1) | (second & 0b1111) == m1
        }),
{
    let first = (m0 << 2) | ((m1 >> 7) << 1) | (c >> 1);
    let second = ((m1 & 0b0111_0000) << 1) | ((c & 0b1) << 4) | (m1 & 0b1111);
    assert(first & 0b1100_0000 == 0 && ((first & 0b1) << 1) | ((second >> 4) & 0b1) == c && (first
        >> 2) & 0b1111 == m0 && ((first & 0b10) << 6) | ((second & 0b1110_0000) >> 1) | (second
        & 0b1111) == m1) by (bit_vector)
        requires
            c <= 0b11,
            m0 <= 0b1111,
            first == (m0 << 2) | ((m1 >> 7) << 1) | (c >> 1),
            second == ((m1 & 0b0111_0000) << 1) | ((c & 0b1) << 4) | (m1 & 0b1111),
    ;
}

/// The class and the method are read back from the two bytes that were
/// written for them, whose two high bits are zero.
pub proof fn lemma_class_and_method_round_trip(class: Class, method: Method)
    requires
        method.wf(),
    ensures
        ({
            let pair = encoded_class_and_method(class, method);
            &&& pair.len() == 2
            &&& pair[0] & 0b1100_0000 == 0
            &&& decoded_class(pair[0], pair[1]) == class
            &&& decoded_method(pair[0], pair[1]) == method
        }),
{
    lemma_class_of_bits_of_class(class);
    lemma_class_and_method_bits(class.bits(), method.bytes()[0], method.bytes()[1]);
    lemma_method_of_own_bytes(method);
}

/// The first bytes of a written header break no rule, however few they are.
pub proof fn lemma_header_prefix_in_order(header: Header, more: Seq<u8>, k: int)
    requires
        header_in_order(header),
        0 <= k <= HEADER_LEN + more.len(),
    ensures
        !header_violation((encoded_header(header) + more).take(k), MAX_ATTRS_LEN),
{
    let bytes = (encoded_header(header) + more).take(k);
    lemma_class_and_method_round_trip(header.class, header.method);
    lemma_be16_round_trip(header.attrs_len, 0, 0);
    lemma_transaction_id_len(header.transaction_id);
    assert forall|i: int| 4 <= i < 8 && i < bytes.len() implies bytes[i] == MAGIC_COOKIE@[i - 4] by {
        assert(bytes[i] == encoded_header(header)[i]);
    }
    if bytes.len() >= 1 {
        assert(bytes[0] == encoded_class_and_method(header.class, header.method)[0]);
    }
    if bytes.len() >= 4 {
        assert(bytes[2] == be16(header.attrs_len)[0]);
        assert(bytes[3] == be16(header.attrs_len)[1]);
    }
}

/// A header is read back from the bytes that were written for it, whatever
/// follows them.
pub proof fn lemma_header_round_trip(header: Header, more: Seq<u8>)
    requires
        header_in_order(header),
    ensures
        encoded_header(header).len() == HEADER_LEN,
        parsed_header(encoded_header(header) + more, MAX_ATTRS_LEN) == Parsed::Done(header),
{
    let bytes = encoded_header(header) + more;
    lemma_transaction_id_len(header.transaction_id);
    lemma_header_prefix_in_order(header, more, bytes.len() as int);
    assert(bytes.take(bytes.len() as int) =~= bytes);
    lemma_class_and_method_round_trip(header.class, header.method);
    lemma_be16_round_trip(header.attrs_len, 0, 0);
    assert(bytes[0] == encoded_class_and_method(header.class, header.method)[0]);
    assert(bytes[1] == encoded_class_and_method(header.class, header.method)[1]);
    assert(bytes[2] == be16(header.attrs_len)[0]);
    assert(bytes[3] == be16(header.attrs_len)[1]);
    assert(bytes.subrange(8, 20) =~= header.transaction_id@);
    lemma_transaction_id_of_bytes(header.transaction_id@);
    lemma_transaction_id_by_bytes(
        TransactionId::of_bytes(bytes.subrange(8, 20)),
        header.transaction_id,
    );
}

/// An attribute is read back from the bytes that were written for it,
/// whatever follows them, and takes exactly those bytes.
pub proof fn lemma_attribute_round_trip(attribute: RawAttributeView, more: Seq<u8>)
    requires
        attribute.value.len() <= RawAttribute::MAX_LEN,
    ensures
        parsed_attribute(encoded_attribute(attribute) + more) == Some(
            (attribute, encoded_attribute(attribute).len()),
        ),
{
    let bytes = encoded_attribute(attribute) + more;
    let len = attribute.value.len();
    lemma_be16_round_trip(attribute.type_code, 0, 0);
    lemma_be16_round_trip(len as u16, 0, 0);
    assert(bytes[0] == be16(attribute.type_code)[0]);
    assert(bytes[1] == be16(attribute.type_code)[1]);
    assert(bytes[2] == be16(len as u16)[0]);
    assert(bytes[3] == be16(len as u16)[1]);
    assert(bytes.subrange(4, 4 + len as int) =~= attribute.value);
}

/// Writing attributes puts the bytes of the first before those of the others.
pub proof fn lemma_encoded_attributes_front(first: RawAttributeView, rest: Seq<RawAttributeView>)
    ensures
        encoded_attributes(seq![first] + rest) == encoded_attribute(first) + encoded_attributes(
            rest,
        ),
    decreases rest.len(),
{
    let all = seq![first] + rest;
    if rest.len() == 0 {
        assert(all.drop_last() =~= Seq::<RawAttributeView>::empty());
        assert(all.last() == first);
        assert(encoded_attributes(all.drop_last()) =~= Seq::<u8>::empty());
        assert(encoded_attributes(rest) =~= Seq::<u8>::empty());
        assert(encoded_attributes(all) =~= encoded_attribute(first) + encoded_attributes(rest));
    } else {
        assert(all.drop_last() =~= seq![first] + rest.drop_last());
        assert(all.last() == rest.last());
        lemma_encoded_attributes_front(first, rest.drop_last());
        assert(encoded_attributes(all) =~= encoded_attribute(first) + encoded_attributes(rest));
    }
}

/// Attributes are read back from the bytes that were written for them.
pub proof fn lemma_attributes_round_trip(attributes: Seq<RawAttributeView>)
    requires
        values_in_bounds(attributes),
    ensures
        parsed_attributes(encoded_attributes(attributes)) == Some(attributes),
    decreases attributes.len(),
{
    if attributes.len() == 0 {
        assert(encoded_attributes(attributes) =~= Seq::<u8>::empty());
    } else {
        let first = attributes[0];
        let rest = attributes.drop_first();
        assert(attributes =~= seq![first] + rest);
        lemma_encoded_attributes_front(first, rest);
        let body = encoded_attributes(attributes);
        lemma_attribute_round_trip(first, encoded_attributes(rest));
        let taken = encoded_attribute(first).len();
        assert(body.skip(taken as int) =~= encoded_attributes(rest));
        assert(values_in_bounds(rest)) by {
            assert forall|i: int| 0 <= i < rest.len() implies (#[trigger] rest[i]).value.len()
                <= RawAttribute::MAX_LEN by {
                assert(rest[i] == attributes[i + 1]);
            }
        }
        lemma_attributes_round_trip(rest);
        assert(body.len() > 0);
    }
}

/// Round trip: a valid message that was written is read back as it was,
/// field for field, whatever follows its bytes in the buffer, and exactly
/// its bytes are taken.
pub proof fn lemma_decode_encoded_message(message: MessageView, more: Seq<u8>)
    requires
        valid_message(message),
    ensures
        outcome(None, encoded_message(message) + more) == (Outcome::Complete {
            message,
            consumed: encoded_message(message).len(),
        }),
        encoded_message(message).len() == HEADER_LEN + attributes_len(message.attributes),
{
    let header = header_of(message);
    let body = encoded_attributes(message.attributes);
    let bytes = encoded_message(message) + more;
    lemma_attributes_len_aligned(message.attributes);
    lemma_encoded_attributes_len(message.attributes);
    assert(bytes =~= encoded_header(header) + (body + more));
    lemma_header_round_trip(header, body + more);
    lemma_attributes_round_trip(message.attributes);
    assert(bytes.subrange(HEADER_LEN as int, HEADER_LEN + header.attrs_len) =~= body);
}

/// Incremental decoding: while only the first `k` bytes of a written message
/// are there, with `k` below its length, a call says that more are needed;
/// the codec keeps the header from the moment its 20 bytes are there, and
/// once all bytes are there the message is read, by a codec that kept the
/// header as by one that did not.
pub proof fn lemma_incremental_decode(message: MessageView, k: int)
    requires
        valid_message(message),
        0 <= k < encoded_message(message).len(),
    ensures
        outcome(None, encoded_message(message).take(k)) == (Outcome::Incomplete {
            pending: if k < HEADER_LEN {
                None
            } else {
                Some(header_of(message))
            },
        }),
        outcome(Some(header_of(message)), encoded_message(message).take(k)) == (
        Outcome::Incomplete { pending: Some(header_of(message)) }),
        outcome(Some(header_of(message)), encoded_message(message)) == (Outcome::Complete {
            message,
            consumed: encoded_message(message).len(),
        }),
{
    let header = header_of(message);
    let body = encoded_attributes(message.attributes);
    let bytes = encoded_message(message);
    lemma_attributes_len_aligned(message.attributes);
    lemma_encoded_attributes_len(message.attributes);
    lemma_transaction_id_len(message.transaction_id);
    lemma_header_prefix_in_order(header, body, k);
    if k >= HEADER_LEN {
        assert(bytes.take(k) =~= encoded_header(header) + body.take(k - HEADER_LEN));
        lemma_header_round_trip(header, body.take(k - HEADER_LEN));
    }
    lemma_attributes_round_trip(message.attributes);
    assert(bytes.subrange(HEADER_LEN as int, HEADER_LEN + header.attrs_len) =~= body);
}

/// Bytes that break a rule of the header are malformed to a codec that
/// awaits a header, and stay so whatever bytes come after them: they are
/// never taken for an incomplete message.
pub proof fn lemma_malformed_header_stays_malformed(bytes: Seq<u8>, more: Seq<u8>)
    requires
        header_violation(bytes, MAX_ATTRS_LEN),
    ensures
        outcome(None, bytes) == Outcome::Malformed,
        outcome(None, bytes + more) == Outcome::Malformed,
{
    let longer = bytes + more;
    if bytes.len() >= 1 && bytes[0] & 0b1100_0000 != 0 {
        assert(longer[0] == bytes[0]);
    } else if bytes.len() >= 4 && (from_be16(bytes[2], bytes[3]) % 4 != 0 || from_be16(
        bytes[2],
        bytes[3],
    ) > MAX_ATTRS_LEN) {
        assert(longer[2] == bytes[2]);
        assert(longer[3] == bytes[3]);
    } else {
        let i = choose|i: int|
            4 <= i < 8 && i < bytes.len() && bytes[i] != #[trigger] MAGIC_COOKIE@[i - 4];
        assert(longer[i] == bytes[i]);
    }
}

/// Round trip with an address: where the first attribute of the type code
/// of the address attribute was written for an address, in either family,
/// the message that is read back tells of that address.
pub proof fn lemma_round_trip_keeps_address(
    message: MessageView,
    place: int,
    address: SocketAddress,
    more: Seq<u8>,
)
    requires
        valid_message(message),
        first_of_type(message.attributes, XorMappedAddress::TYPE) == Some(place),
        0 <= place < message.attributes.len(),
        message.attributes[place].value == encoded_address(address, message.transaction_id),
    ensures
        outcome(None, encoded_message(message) + more) matches Outcome::Complete {
            message: read,
            ..
        } && read.attr::<XorMappedAddress>() == Some(XorMappedAddress(address)),
{
    lemma_decode_encoded_message(message, more);
    lemma_decode_encoded_address(address, message.transaction_id);
}

} // verus!
