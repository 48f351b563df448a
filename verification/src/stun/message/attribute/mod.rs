//! Typed attributes: what the value of a raw attribute means for one type code.

pub mod xor_mapped_address;

pub use self::xor_mapped_address::XorMappedAddress;

use crate::stun::message::{RawAttribute, RawAttributeView, TransactionId};
use vstd::prelude::*;

verus! {

/// A typed attribute: a value that is read from, and written as, the value of
/// a raw attribute of one fixed type code. Reading may depend on the
/// identifier of the transaction that the attribute came with.
pub trait Attribute: Sized {
    /// The type code of the raw attributes that hold this attribute.
    const TYPE: u16;

    /// What a value of these bytes stands for, if anything.
    spec fn decoded(raw: Seq<u8>, tr_id: TransactionId) -> Option<Self>;

    /// The bytes of the value that stands for this attribute.
    spec fn encoded(&self, tr_id: TransactionId) -> Seq<u8>;

    /// Reads the attribute from the value of a raw attribute. `None` means
    /// that the bytes are not a value of this attribute.
    fn from_raw(raw: &[u8], tr_id: &TransactionId) -> (attribute: Option<Self>)
        ensures
            attribute == Self::decoded(raw@, *tr_id),
    ;

    /// Writes the attribute as a raw attribute.
    fn to_raw(&self, tr_id: &TransactionId) -> (raw: RawAttribute)
        ensures
            raw.wf(),
            raw@ == (RawAttributeView {
                type_code: Self::TYPE,
                value: self.encoded(*tr_id),
            }),
    ;
}

} // verus!
