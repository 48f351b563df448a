use crate::stun::codec::buffer::buffered;
use crate::stun::codec::{
    decoded_class, decoded_method, header_violation, outcome, parsed_attribute, parsed_attributes,
    parsed_header, Header, MessageCodec, Outcome, Parsed, ATTR_HEADER_LEN, HEADER_LEN,
    MAX_ATTRS_LEN,
};
use crate::stun::error::Error;
use crate::stun::message::method::lemma_method_of_bytes;
use crate::stun::message::{
    attribute_views, Class, Message, Method, RawAttribute, RawAttributeView, TransactionId,
    MAGIC_COOKIE,
};
use crate::stun::util::read_be16;
use bytes::BytesMut;
use vstd::prelude::*;
use vstd::slice::{slice_subrange, slice_to_vec};

verus! {

impl MessageCodec {
    /// Reads one message from the front of `src`, if a whole one is there.
    ///
    /// The result is always `Ok`, and one of three: `Ok(None)` where more
    /// bytes are needed, `Ok(Some(None))` where the bytes are not a message,
    /// `Ok(Some(Some(message)))` where a message was read. Only in the last
    /// case do bytes leave `src`: exactly those of the message. The header is
    /// read once, as soon as its 20 bytes are there, and kept until the
    /// attributes have come.
    pub fn decode(&mut self, src: &mut BytesMut) -> (result: Result<Option<Option<Message>>, Error>)
        ensures
            final(self).wf(),
            match outcome(old(self).pending(), buffered(*old(src))) {
                Outcome::Incomplete { pending } => {
                    &&& result == Ok::<Option<Option<Message>>, Error>(None)
                    &&& buffered(*final(src)) == buffered(*old(src))
                    &&& final(self).pending() == pending
                },
                Outcome::Malformed => {
                    &&& result == Ok::<Option<Option<Message>>, Error>(Some(None))
                    &&& buffered(*final(src)) == buffered(*old(src))
                    &&& final(self).pending() is None
                },
                Outcome::Complete { message, consumed } => {
                    &&& result matches Ok(Some(Some(read)))
                    &&& read@ == message
                    &&& consumed <= buffered(*old(src)).len()
                    &&& buffered(*final(src)) == buffered(*old(src)).skip(consumed as int)
                    &&& final(self).pending() is None
                },
            },
    {
        proof {
            use_type_invariant(&*self);
        }
        let header: Header = match self.header {
            Some(header) => header,
            None => {
                match parse_header_streaming(<BytesMut as AsRef<[u8]>>::as_ref(src), MAX_ATTRS_LEN) {
                    Parsed::Done(header) => {
                        self.header = Some(header);
                        header
                    },
                    Parsed::Incomplete => {
                        return Ok(None);
                    },
                    Parsed::Malformed => {
                        return Ok(Some(None));
                    },
                }
            },
        };
        let total_len: usize = (HEADER_LEN + header.attrs_len) as usize;

        // Wait for the whole message.
        if src.len() < total_len {
            return Ok(None);
        }
        let attrs_buf = slice_subrange(<BytesMut as AsRef<[u8]>>::as_ref(src), HEADER_LEN as usize, total_len);
        let attributes: Vec<RawAttribute> = match parse_attributes(attrs_buf) {
            Some(attributes) => attributes,
            None => {
                self.header = None;
                return Ok(Some(None));
            },
        };
        src.advance(total_len);
        self.header = None;
        Ok(
            Some(
                Some(
                    Message {
                        class: header.class,
                        method: header.method,
                        transaction_id: header.transaction_id,
                        attributes,
                    },
                ),
            ),
        )
    }
}

/// Reads a header from the front of `input`, as far as `input` goes. A
/// length field above `max_len`, or not a multiple of four, is malformed.
pub fn parse_header_streaming(input: &[u8], max_len: u16) -> (header: Parsed<Header>)
    ensures
        header == parsed_header(input@, max_len),
        header matches Parsed::Done(read) ==> read.method.wf() && read.attrs_len % 4 == 0
            && read.attrs_len <= max_len,
{
    let (class, method) = match parse_class_and_method_streaming(input) {
        Parsed::Done(pair) => pair,
        Parsed::Incomplete => {
            assert(!header_violation(input@, max_len));
            return Parsed::Incomplete;
        },
        Parsed::Malformed => {
            return Parsed::Malformed;
        },
    };

    // The length of the attributes: a multiple of four, since every
    // attribute is padded to one.
    if input.len() < 4 {
        assert(!header_violation(input@, max_len));
        return Parsed::Incomplete;
    }
    let len: u16 = read_be16(input[2], input[3]);
    if len % 4 != 0 || len > max_len {
        return Parsed::Malformed;
    }
    // The magic cookie: as many of its bytes as are there must be right.
    let mut i: usize = 4;
    while i < 8 && i < input.len()
        invariant
            4 <= i <= 8,
            forall|j: int| 4 <= j < i && j < input@.len() ==> input@[j] == MAGIC_COOKIE@[j - 4],
        decreases 8 - i,
    {
        if input[i] != MAGIC_COOKIE[i - 4] {
            assert(input@[i as int] != MAGIC_COOKIE@[i - 4]);
            return Parsed::Malformed;
        }
        i += 1;
    }
    assert(!header_violation(input@, max_len));
    if input.len() < HEADER_LEN as usize {
        return Parsed::Incomplete;
    }
    // The transaction identifier: twelve bytes as they are.

    let transaction_id = TransactionId::from_slice(slice_subrange(input, 8, 20));
    Parsed::Done(Header { class, method, attrs_len: len, transaction_id })
}

/// Reads the class and the method from the first two bytes of `input`, as
/// far as `input` goes. The two high bits of the first byte must be zero;
/// of the other fourteen, twelve are the method and two the class, the class
/// bits standing between the method bits.
pub fn parse_class_and_method_streaming(input: &[u8]) -> (read: Parsed<(Class, Method)>)
    ensures
        read is Malformed <==> input@.len() >= 1 && input@[0] & 0b1100_0000 != 0,
        read is Incomplete <==> input@.len() < 2 && !(input@.len() >= 1 && input@[0] & 0b1100_0000
            != 0),
        read matches Parsed::Done(pair) ==> {
            &&& pair.0 == decoded_class(input@[0], input@[1])
            &&& pair.1 == decoded_method(input@[0], input@[1])
            &&& pair.1.wf()
        },
{
    if input.len() < 1 {
        return Parsed::Incomplete;
    }
    let first: u8 = input[0];
    if first & 0b1100_0000 != 0 {
        return Parsed::Malformed;
    }
    if input.len() < 2 {
        return Parsed::Incomplete;
    }
    let second: u8 = input[1];
    let m1: u8 = (first >> 1) & 0b1_1111;
    let c1: u8 = first & 0b1;
    let m2: u8 = second >> 5;
    let c2: u8 = (second >> 4) & 0b1;
    let m3: u8 = second & 0b1111;

    let class_bits: u8 = (c1 << 1) | c2;
    let high: u8 = m1 >> 1;
    let low: u8 = ((m1 & 0b1) << 7) | (m2 << 4) | m3;
    assert(class_bits & 0b11 == ((first & 0b1) << 1) | ((second >> 4) & 0b1)) by (bit_vector)
        requires
            class_bits == ((first & 0b1) << 1) | ((second >> 4) & 0b1),
    ;
    assert(high & 0x0f == ((first >> 2) & 0b1111) & 0x0f && low == ((first & 0b10) << 6) | ((second
        & 0b1110_0000) >> 1) | (second & 0b1111)) by (bit_vector)
        requires
            high == ((first >> 1) & 0b1_1111) >> 1,
            low == ((((first >> 1) & 0b1_1111) & 0b1) << 7) | ((second >> 5) << 4) | (second
                & 0b1111),
    ;
    let class = Class::from_low_2_bits(class_bits);
    let method = Method::from_low_12_bits([high, low]);
    proof {
        lemma_method_of_bytes(high, low);
        lemma_method_of_bytes((first >> 2) & 0b1111, low);
        crate::stun::message::method::lemma_method_by_bytes(
            method,
            decoded_method(first, second),
        );
    }
    Parsed::Done((class, method))
}

/// Reads one attribute from the front of `input`: the rest of `input` and
/// the attribute, or `None` where the bytes are too few or the length field
/// is above `RawAttribute::MAX_LEN`.
pub fn parse_attribute(input: &[u8]) -> (read: Option<(&[u8], RawAttribute)>)
    ensures
        match parsed_attribute(input@) {
            None => read is None,
            Some((attribute, taken)) => {
                &&& read matches Some((rest, made))
                &&& made@ == attribute
                &&& taken <= input@.len()
                &&& rest@ == input@.skip(taken as int)
            },
        },
{
    if input.len() < ATTR_HEADER_LEN as usize {
        return None;
    }
    let type_code: u16 = read_be16(input[0], input[1]);
    // The length of the value, before padding.
    let unpadded_len: u16 = read_be16(input[2], input[3]);
    if unpadded_len > RawAttribute::MAX_LEN {
        return None;
    }
    // Values are padded to a multiple of four bytes; what the padding holds
    // is ignored.

    let sum: u16 = unpadded_len + 3;
    let padded_len: u16 = sum & !0b11;
    assert(padded_len == (sum / 4) * 4 && padded_len <= 1024) by (bit_vector)
        requires
            sum <= 1027,
            padded_len == sum & !0b11u16,
    ;
    let taken: usize = ATTR_HEADER_LEN as usize + padded_len as usize;
    if input.len() < taken {
        return None;
    }
    let value: Vec<u8> = slice_to_vec(
        slice_subrange(input, ATTR_HEADER_LEN as usize, ATTR_HEADER_LEN as usize
            + unpadded_len as usize),
    );
    let rest = slice_subrange(input, taken, input.len());
    let attribute = RawAttribute::new(type_code, value).unwrap();
    assert(rest@ =~= input@.skip(taken as int));
    Some((rest, attribute))
}

/// Reads attributes from all of `input`: `None` where the bytes are not
/// attributes from end to end.
pub fn parse_attributes(input: &[u8]) -> (read: Option<Vec<RawAttribute>>)
    ensures
        match parsed_attributes(input@) {
            None => read is None,
            Some(attributes) => read matches Some(made) && attribute_views(made@) == attributes,
        },
{
    let mut attributes: Vec<RawAttribute> = Vec::new();
    let mut rest: &[u8] = input;
    assert(attribute_views(attributes@) =~= Seq::<RawAttributeView>::empty());
    while rest.len() > 0
        invariant
            parsed_attributes(input@) == match parsed_attributes(rest@) {
                None => None::<Seq<RawAttributeView>>,
                Some(others) => Some(attribute_views(attributes@) + others),
            },
        decreases rest@.len(),
    {
        match parse_attribute(rest) {
            None => {
                return None;
            },
            Some((after, attribute)) => {
                let ghost before = attribute_views(attributes@);
                attributes.push(attribute);
                proof {
                    assert(attribute_views(attributes@) =~= before + seq![attribute@]);
                    match parsed_attributes(after@) {
                        None => {},
                        Some(others) => {
                            assert(before + (seq![attribute@] + others) =~= attribute_views(
                                attributes@,
                            ) + others);
                        },
                    }
                }
                rest = after;
            },
        }
    }
    assert(attribute_views(attributes@) + Seq::<RawAttributeView>::empty() =~= attribute_views(
        attributes@,
    ));
    Some(attributes)
}

} // verus!
