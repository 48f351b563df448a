use crate::stun::codec::buffer::buffered;
use crate::stun::codec::{
    attributes_len, encodable, encoded_attribute, encoded_attributes, encoded_class_and_method,
    encoded_message, padding, MessageCodec, ATTR_HEADER_LEN, HEADER_LEN, MAX_ATTRS_LEN,
};
use crate::stun::error::Error;

use crate::stun::message::transaction_id::lemma_transaction_id_len;
use crate::stun::message::{
    attribute_views, Class, Message, Method, RawAttribute, RawAttributeView, TransactionId,
    MAGIC_COOKIE,
};
use crate::stun::util::{be16, write_be16};
use bytes::BytesMut;
use vstd::prelude::*;
use vstd::slice::slice_subrange;

verus! {

impl MessageCodec {
    /// Writes `item` after the bytes that `dst` holds, unless its attributes
    /// take `MAX_ATTRS_LEN` bytes or more: then nothing is written and the
    /// error says so. What the codec keeps for decoding is not touched.
    pub fn encode(&mut self, item: Message, dst: &mut BytesMut) -> (result: Result<(), Error>)
        requires
            encodable(item@) ==> buffered(*old(dst)).len() + HEADER_LEN + attributes_len(
                item@.attributes,
            ) <= usize::MAX,
        ensures
            *final(self) == *old(self),
            encodable(item@) ==> result is Ok && buffered(*final(dst)) == buffered(*old(dst))
                + encoded_message(item@),
            !encodable(item@) ==> result == Err::<(), Error>(Error::MessageTooLarge) && buffered(
                *final(dst),
            ) == buffered(*old(dst)),
    {
        let ghost views = item@.attributes;
        let mut attrs_len: usize = 0;
        let mut i: usize = 0;
        assert(views.take(0) =~= Seq::<RawAttributeView>::empty());
        while i < item.attributes.len()
            invariant
                i <= item.attributes.len(),
                views == attribute_views(item.attributes@),
                attrs_len == attributes_len(views.take(i as int)),
                attrs_len < MAX_ATTRS_LEN,
            decreases item.attributes.len() - i,
        {
            proof {
                assert(views.take(i + 1).drop_last() =~= views.take(i as int));
                lemma_attributes_len_grows(views, i + 1);
            }
            attrs_len += ATTR_HEADER_LEN as usize + item.attributes[i].padded_len() as usize;
            if attrs_len >= MAX_ATTRS_LEN as usize {
                return Err(Error::MessageTooLarge);
            }
            i += 1;
        }
        proof {
            assert(views.take(i as int) =~= views);
            lemma_attributes_len_aligned(views);
            lemma_transaction_id_len(item.transaction_id);
        }
        let attrs_len: u16 = attrs_len as u16;

        encode_class_and_method(item.class, item.method, dst);
        encode_len(attrs_len, dst);
        encode_magic_cookie(dst);
        encode_transaction_id(&item.transaction_id, dst);
        encode_attributes(item.attributes.as_slice(), dst);
        proof {
            assert(buffered(*dst) =~= buffered(*old(dst)) + encoded_message(item@));
        }
        Ok(())
    }
}

/// Writes the first two bytes of a header: the twelve bits of the method
/// with the two bits of the class between them.
pub fn encode_class_and_method(class: Class, method: Method, dst: &mut BytesMut)
    requires
        buffered(*old(dst)).len() + 2 <= usize::MAX,
    ensures
        buffered(*final(dst)) == buffered(*old(dst)) + encoded_class_and_method(class, method),
{
    let c: u8 = class.as_byte();
    let m = method.as_bytes();
    let m0: u8 = m[0];
    let m1: u8 = m[1];
    let pair: [u8; 2] = [
        (m0 << 2) | (m1 >> 7 << 1) | (c >> 1),
        ((m1 & 0b111_0000) << 1) | ((c & 0b1) << 4) | (m1 & 0b1111),
    ];
    assert(pair@ =~= encoded_class_and_method(class, method));
    dst.extend_from_slice(pair.as_slice());
}

/// Writes the length field of a header.
pub fn encode_len(len: u16, dst: &mut BytesMut)
    requires
        len % 4 == 0,
        buffered(*old(dst)).len() + 2 <= usize::MAX,
    ensures
        buffered(*final(dst)) == buffered(*old(dst)) + be16(len),
{
    let pair = write_be16(len);
    dst.extend_from_slice(pair.as_slice());
}

/// Writes the magic cookie.
pub fn encode_magic_cookie(dst: &mut BytesMut)
    requires
        buffered(*old(dst)).len() + 4 <= usize::MAX,
    ensures
        buffered(*final(dst)) == buffered(*old(dst)) + MAGIC_COOKIE@,
{
    dst.extend_from_slice(MAGIC_COOKIE.as_slice());
}

/// Writes the twelve bytes of a transaction identifier.
pub fn encode_transaction_id(tr_id: &TransactionId, dst: &mut BytesMut)
    requires
        buffered(*old(dst)).len() + 12 <= usize::MAX,
    ensures
        buffered(*final(dst)) == buffered(*old(dst)) + tr_id@,
{
    proof {
        lemma_transaction_id_len(*tr_id);
    }
    dst.extend_from_slice(tr_id.as_bytes().as_slice());
}

/// Writes attributes in their order: type code, length of the value, the
/// value, and zero bytes up to a multiple of four.
pub fn encode_attributes(attrs: &[RawAttribute], dst: &mut BytesMut)
    requires
        buffered(*old(dst)).len() + attributes_len(attribute_views(attrs@)) <= usize::MAX,
    ensures
        buffered(*final(dst)) == buffered(*old(dst)) + encoded_attributes(attribute_views(attrs@)),
{
    let ghost views = attribute_views(attrs@);
    let zeros: [u8; 3] = [0u8; 3];
    let mut i: usize = 0;
    assert(views.take(0) =~= Seq::<RawAttributeView>::empty());
    assert(buffered(*dst) =~= buffered(*old(dst)) + encoded_attributes(views.take(0)));
    while i < attrs.len()
        invariant
            i <= attrs.len(),
            views == attribute_views(attrs@),
            zeros@ == padding(3),
            buffered(*old(dst)).len() + attributes_len(views) <= usize::MAX,
            buffered(*dst) == buffered(*old(dst)) + encoded_attributes(views.take(i as int)),
        decreases attrs.len() - i,
    {
        let attr = &attrs[i];
        let unpadded: u16 = attr.unpadded_len();
        let pad: usize = (attr.padded_len() - unpadded) as usize;
        proof {
            assert(views.take(i + 1).drop_last() =~= views.take(i as int));
            assert(views.take(i + 1).last() == attr@);
            lemma_attributes_len_grows(views, i + 1);
            lemma_attributes_len_grows(views, views.len() as int);
            assert(views.take(views.len() as int) =~= views);
            lemma_encoded_attributes_len(views.take(i as int));
        }
        let ghost before = buffered(*dst);
        dst.extend_from_slice(write_be16(attr.type_code()).as_slice());
        dst.extend_from_slice(write_be16(unpadded).as_slice());
        dst.extend_from_slice(attr.value());
        dst.extend_from_slice(slice_subrange(zeros.as_slice(), 0, pad));
        proof {
            assert(zeros@.subrange(0, pad as int) =~= padding(pad as nat));
            assert(buffered(*dst) =~= before + encoded_attribute(attr@));
            assert(buffered(*dst) =~= buffered(*old(dst)) + encoded_attributes(
                views.take(i + 1),
            ));
        }
        i += 1;
    }
    assert(views.take(i as int) =~= views);
}

/// The length of attributes on the wire only grows with more attributes.
pub proof fn lemma_attributes_len_grows(attributes: Seq<RawAttributeView>, n: int)
    requires
        0 <= n <= attributes.len(),
    ensures
        attributes_len(attributes.take(n)) <= attributes_len(attributes),
    decreases attributes.len() - n,
{
    if n < attributes.len() {
        lemma_attributes_len_grows(attributes, n + 1);
        assert(attributes.take(n + 1).drop_last() =~= attributes.take(n));
    } else {
        assert(attributes.take(n) =~= attributes);
    }
}

/// The length of attributes on the wire is a multiple of four.
pub proof fn lemma_attributes_len_aligned(attributes: Seq<RawAttributeView>)
    ensures
        attributes_len(attributes) % 4 == 0,
    decreases attributes.len(),
{
    if attributes.len() > 0 {
        lemma_attributes_len_aligned(attributes.drop_last());
    }
}

/// The bytes written for attributes are as many as their length on the wire.
pub proof fn lemma_encoded_attributes_len(attributes: Seq<RawAttributeView>)
    ensures
        encoded_attributes(attributes).len() == attributes_len(attributes),
    decreases attributes.len(),
{
    if attributes.len() > 0 {
        lemma_encoded_attributes_len(attributes.drop_last());
    }
}

} // verus!
