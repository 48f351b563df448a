use crate::stun::error::Error;
use vstd::prelude::*;

verus! {

/// What a raw attribute holds: its type code and the bytes of its value,
/// without padding.
pub struct RawAttributeView {
    pub type_code: u16,
    pub value: Seq<u8>,
}

/// An attribute before its value is read as a typed attribute.
#[derive(Debug, PartialEq, Eq)]
pub struct RawAttribute {
    type_code: u16,
    value: Vec<u8>,
}

impl View for RawAttribute {
    type V = RawAttributeView;

    closed spec fn view(&self) -> RawAttributeView {
        RawAttributeView { type_code: self.type_code, value: self.value@ }
    }
}

impl Clone for RawAttribute {
    fn clone(&self) -> (copy: RawAttribute)
        ensures
            copy@ == self@,
    {
        proof {
            use_type_invariant(self);
        }
        RawAttribute { type_code: self.type_code, value: self.value.clone() }
    }
}

/// The length of a value of `len` bytes once it is padded to a multiple of four.
pub open spec fn padded(len: nat) -> nat {
    ((len + 3) / 4) * 4
}

impl RawAttribute {
    /// The greatest length of a value, in bytes.
    pub const MAX_LEN: u16 = 1024;

    /// The invariant of the type: the value is at most `MAX_LEN` bytes long.
    #[verifier::type_invariant]
    pub open spec fn wf(self) -> bool {
        self@.value.len() <= RawAttribute::MAX_LEN
    }

    /// Makes an attribute, unless `value` is longer than `MAX_LEN` bytes.
    pub fn new(type_code: u16, value: Vec<u8>) -> (made: Result<RawAttribute, Error>)
        ensures
            value@.len() <= RawAttribute::MAX_LEN ==> made is Ok && made->Ok_0.wf()
                && made->Ok_0@ == (RawAttributeView { type_code, value: value@ }),
            value@.len() > RawAttribute::MAX_LEN ==> made == Err::<RawAttribute, Error>(
                Error::AttributeTooLarge,
            ),
    {
        if value.len() <= RawAttribute::MAX_LEN as usize {
            Ok(RawAttribute { type_code, value })
        } else {
            Err(Error::AttributeTooLarge)
        }
    }

    /// The type code of the attribute.
    pub fn type_code(&self) -> (code: u16)
        ensures
            code == self@.type_code,
    {
        self.type_code
    }

    /// The length of the value in bytes, without padding.
    pub fn unpadded_len(&self) -> (len: u16)
        ensures
            len == self@.value.len(),
            len <= RawAttribute::MAX_LEN,
    {
        proof {
            use_type_invariant(self);
        }
        self.value.len() as u16
    }

    /// The length of the value in bytes once padded to a multiple of four.
    pub fn padded_len(&self) -> (len: u16)
        ensures
            len == padded(self@.value.len()),
            len <= RawAttribute::MAX_LEN,
    {
        let unpadded: u16 = self.unpadded_len();
        let sum: u16 = unpadded + 3;
        let len: u16 = sum & !0b11;
        assert(len == (sum / 4) * 4 && len <= 1024) by (bit_vector)
            requires
                sum <= 1027,
                len == sum & !0b11u16,
        ;
        len
    }

    /// The bytes of the value, without padding.
    pub fn value(&self) -> (value: &[u8])
        ensures
            value@ == self@.value,
    {
        self.value.as_slice()
    }
}

} // verus!
