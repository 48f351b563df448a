//! The wire codec: between a byte buffer and messages, incrementally.
//!
//! A message is a header of 20 bytes and its attributes. The header packs the
//! class and the method into its first two bytes, bit by bit:
//!
//! ```text
//!   0 0 M11 M10 M9 M8 M7 C1 | M6 M5 M4 C0 M3 M2 M1 M0
//! ```
//!
//! then come the length of the attributes (two bytes, a multiple of four),
//! the magic cookie (four bytes) and the transaction identifier (twelve).
//! Each attribute is a type code (two bytes), the length of its value (two
//! bytes), the value, and padding up to a multiple of four bytes.

pub mod buffer;
pub mod decoder;
pub mod encoder;
pub mod laws;

use crate::stun::message::raw_attribute::padded;
use crate::stun::message::{
    Class, MessageView, Method, RawAttribute, RawAttributeView, TransactionId, MAGIC_COOKIE,
};
use crate::stun::util::{be16, from_be16};
use vstd::prelude::*;

verus! {

/// The length of the header of a message, in bytes.
pub const HEADER_LEN: u16 = 20;

/// The length of the type code and the length field of an attribute, in bytes.
pub const ATTR_HEADER_LEN: u16 = 4;

/// The bound on the length of the attributes of a message: a message as
/// long as this, or longer, is not written, and a header that announces
/// more is malformed.
pub const MAX_ATTRS_LEN: u16 = 65515;

/// What the header of a message says.
#[derive(Debug, Clone, Copy)]
pub struct Header {
    pub class: Class,
    pub method: Method,
    /// The length of the attributes in bytes.
    pub attrs_len: u16,
    pub transaction_id: TransactionId,
}

/// What reading from the front of some bytes came to.
#[derive(Debug)]
pub enum Parsed<T> {
    /// The bytes so far are in order, and more are needed.
    Incomplete,
    /// The bytes are not what they should be, however many follow.
    Malformed,
    /// The bytes were read.
    Done(T),
}

/// The codec: what it remembers between two calls is the header of a message
/// whose attributes have not all arrived.
pub struct MessageCodec {
    header: Option<Header>,
}

impl MessageCodec {
    /// The invariant of the type: a header that is kept announces no more
    /// attributes than a message may have.
    #[verifier::type_invariant]
    pub open spec fn wf(self) -> bool {
        self.pending() is Some ==> header_in_order(self.pending()->Some_0)
    }

    /// The header that the codec keeps: `None` while it awaits a header,
    /// the header while it awaits the attributes that the header announced.
    pub closed spec fn pending(self) -> Option<Header> {
        self.header
    }

    /// A codec that awaits a header.
    pub fn new() -> (codec: MessageCodec)
        ensures
            codec.pending() is None,
    {
        MessageCodec { header: None }
    }

    /// Whether the codec keeps a header, and so awaits attributes.
    pub fn has_header(&self) -> (kept: bool)
        ensures
            kept == self.pending() is Some,
    {
        self.header.is_some()
    }
}

impl Default for MessageCodec {
    fn default() -> (codec: MessageCodec)
        ensures
            codec.pending() is None,
    {
        MessageCodec { header: None }
    }
}

/// Whether a header is one that the decoder keeps: its method is valid, and
/// its length field is a multiple of four within the bound.
pub open spec fn header_in_order(header: Header) -> bool {
    &&& header.method.wf()
    &&& header.attrs_len % 4 == 0
    &&& header.attrs_len <= MAX_ATTRS_LEN
}

/// The first two bytes of a header, for a class and a method.
pub open spec fn encoded_class_and_method(class: Class, method: Method) -> Seq<u8> {
    let c = class.bits();
    let m0 = method.bytes()[0];
    let m1 = method.bytes()[1];
    seq![
        (m0 << 2) | ((m1 >> 7) << 1) | (c >> 1),
        ((m1 & 0b0111_0000) << 1) | ((c & 0b1) << 4) | (m1 & 0b1111),
    ]
}

/// The class that the first two bytes of a header hold.
pub open spec fn decoded_class(first: u8, second: u8) -> Class {
    Class::of_bits(((first & 0b1) << 1) | ((second >> 4) & 0b1))
}

/// The method that the first two bytes of a header hold.
pub open spec fn decoded_method(first: u8, second: u8) -> Method {
    Method::of_bytes(
        (first >> 2) & 0b1111,
        ((first & 0b10) << 6) | ((second & 0b1110_0000) >> 1) | (second & 0b1111),
    )
}

/// The 20 bytes of a header.
pub open spec fn encoded_header(header: Header) -> Seq<u8> {
    encoded_class_and_method(header.class, header.method) + be16(header.attrs_len)
        + MAGIC_COOKIE@ + header.transaction_id@
}

/// Whether the bytes that there are of a header break a rule: the two high
/// bits of the first byte are not zero, the length field is not a multiple
/// of four or is above `max_len`, or a byte of the magic cookie is wrong. A
/// rule is looked at as soon as the bytes that it speaks of are there.
pub open spec fn header_violation(bytes: Seq<u8>, max_len: u16) -> bool {
    ||| bytes.len() >= 1 && bytes[0] & 0b1100_0000 != 0
    ||| bytes.len() >= 4 && (from_be16(bytes[2], bytes[3]) % 4 != 0 || from_be16(
        bytes[2],
        bytes[3],
    ) > max_len)
    ||| exists|i: int| 4 <= i < 8 && i < bytes.len() && bytes[i] != #[trigger] MAGIC_COOKIE@[i - 4]
}

/// What reading a header from the front of `bytes` comes to, where the
/// length field may be up to `max_len`.
pub open spec fn parsed_header(bytes: Seq<u8>, max_len: u16) -> Parsed<Header> {
    if header_violation(bytes, max_len) {
        Parsed::Malformed
    } else if bytes.len() < HEADER_LEN {
        Parsed::Incomplete
    } else {
        Parsed::Done(
            Header {
                class: decoded_class(bytes[0], bytes[1]),
                method: decoded_method(bytes[0], bytes[1]),
                attrs_len: from_be16(bytes[2], bytes[3]),
                transaction_id: TransactionId::of_bytes(bytes.subrange(8, 20)),
            },
        )
    }
}

/// `n` bytes of padding, which are written as zero.
pub open spec fn padding(n: nat) -> Seq<u8> {
    Seq::new(n, |i: int| 0u8)
}

/// The bytes of one attribute: type code, length of the value, the value,
/// and zero bytes up to a multiple of four.
pub open spec fn encoded_attribute(attribute: RawAttributeView) -> Seq<u8> {
    be16(attribute.type_code) + be16(attribute.value.len() as u16) + attribute.value + padding(
        (padded(attribute.value.len()) - attribute.value.len()) as nat,
    )
}

/// The bytes of a sequence of attributes, in their order.
pub open spec fn encoded_attributes(attributes: Seq<RawAttributeView>) -> Seq<u8>
    decreases attributes.len(),
{
    if attributes.len() == 0 {
        Seq::empty()
    } else {
        encoded_attributes(attributes.drop_last()) + encoded_attribute(attributes.last())
    }
}

/// The length in bytes of a sequence of attributes on the wire.
pub open spec fn attributes_len(attributes: Seq<RawAttributeView>) -> nat
    decreases attributes.len(),
{
    if attributes.len() == 0 {
        0
    } else {
        attributes_len(attributes.drop_last()) + ATTR_HEADER_LEN as nat + padded(
            attributes.last().value.len(),
        )
    }
}

/// Whether each value of a sequence of attributes is within `MAX_LEN` bytes.
pub open spec fn values_in_bounds(attributes: Seq<RawAttributeView>) -> bool {
    forall|i: int|
        0 <= i < attributes.len() ==> (#[trigger] attributes[i]).value.len()
            <= RawAttribute::MAX_LEN
}

/// Whether a message can be written: its attributes fit under the bound.
pub open spec fn encodable(message: MessageView) -> bool {
    attributes_len(message.attributes) < MAX_ATTRS_LEN
}

/// The bytes of a message that can be written.
pub open spec fn encoded_message(message: MessageView) -> Seq<u8> {
    encoded_header(
        Header {
            class: message.class,
            method: message.method,
            attrs_len: attributes_len(message.attributes) as u16,
            transaction_id: message.transaction_id,
        },
    ) + encoded_attributes(message.attributes)
}

/// What reading one attribute from the front of `body` comes to: the
/// attribute and the number of bytes that it takes with its padding, or
/// `None` where the bytes are too few or the length field is above `MAX_LEN`.
/// What the padding holds is not looked at.
pub open spec fn parsed_attribute(body: Seq<u8>) -> Option<(RawAttributeView, nat)> {
    if body.len() < ATTR_HEADER_LEN {
        None
    } else {
        let len = from_be16(body[2], body[3]);
        if len > RawAttribute::MAX_LEN || body.len() < ATTR_HEADER_LEN + padded(len as nat) {
            None
        } else {
            Some(
                (
                    RawAttributeView {
                        type_code: from_be16(body[0], body[1]),
                        value: body.subrange(4, 4 + len),
                    },
                    ATTR_HEADER_LEN as nat + padded(len as nat),
                ),
            )
        }
    }
}

/// What reading attributes from all of `body` comes to: the attributes in
/// their order, or `None` where the bytes are not attributes from end to end.
pub open spec fn parsed_attributes(body: Seq<u8>) -> Option<Seq<RawAttributeView>>
    decreases body.len(),
{
    if body.len() == 0 {
        Some(Seq::empty())
    } else {
        match parsed_attribute(body) {
            None => None,
            Some((first, taken)) => match parsed_attributes(body.skip(taken as int)) {
                None => None,
                Some(rest) => Some(seq![first] + rest),
            },
        }
    }
}

/// What one call of the decoder comes to.
pub enum Outcome {
    /// More bytes are needed. The buffer is left as it is, and the codec
    /// keeps `pending`.
    Incomplete { pending: Option<Header> },
    /// The bytes are not a message. The buffer is left as it is, and the
    /// codec awaits a header again.
    Malformed,
    /// A message was read. Its bytes, `consumed` of them, leave the buffer,
    /// and the codec awaits a header again.
    Complete { message: MessageView, consumed: nat },
}

/// What one call of the decoder comes to, for a codec that keeps `pending`
/// and a buffer that holds `bytes`. A header that is kept is not read again.
pub open spec fn outcome(pending: Option<Header>, bytes: Seq<u8>) -> Outcome {
    let header = match pending {
        Some(header) => Parsed::Done(header),
        None => parsed_header(bytes, MAX_ATTRS_LEN),
    };
    match header {
        Parsed::Incomplete => Outcome::Incomplete { pending: None },
        Parsed::Malformed => Outcome::Malformed,
        Parsed::Done(header) => {
            let total = HEADER_LEN + header.attrs_len;
            if bytes.len() < total {
                Outcome::Incomplete { pending: Some(header) }
            } else {
                match parsed_attributes(bytes.subrange(HEADER_LEN as int, total)) {
                    None => Outcome::Malformed,
                    Some(attributes) => Outcome::Complete {
                        message: MessageView {
                            class: header.class,
                            method: header.method,
                            transaction_id: header.transaction_id,
                            attributes,
                        },
                        consumed: total as nat,
                    },
                }
            }
        },
    }
}

} // verus!
