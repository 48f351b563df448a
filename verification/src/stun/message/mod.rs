//! In-memory representation of a protocol message.

pub mod attribute;
pub mod class;
pub mod method;
pub mod raw_attribute;
pub mod transaction_id;

pub use self::class::Class;
pub use self::method::Method;
pub use self::raw_attribute::{RawAttribute, RawAttributeView};
pub use self::transaction_id::TransactionId;

use self::attribute::Attribute;
use vstd::prelude::*;

verus! {

/// The fixed value of bytes 4 to 7 of every message, which is also key
/// material for the address attributes.
pub const MAGIC_COOKIE: [u8; 4] = [0x21, 0x12, 0xa4, 0x42];

/// A protocol message: a value container, on which nothing is checked.
#[derive(Debug, Clone, PartialEq, Eq)]
pub struct Message {
    pub class: Class,
    pub method: Method,
    pub transaction_id: TransactionId,
    /// The attributes in wire order. A type code may occur more than once.
    pub attributes: Vec<RawAttribute>,
}

/// What a message holds.
pub struct MessageView {
    pub class: Class,
    pub method: Method,
    pub transaction_id: TransactionId,
    pub attributes: Seq<RawAttributeView>,
}

impl View for Message {
    type V = MessageView;

    open spec fn view(&self) -> MessageView {
        MessageView {
            class: self.class,
            method: self.method,
            transaction_id: self.transaction_id,
            attributes: attribute_views(self.attributes@),
        }
    }
}

/// What each of a sequence of attributes holds.
pub open spec fn attribute_views(attributes: Seq<RawAttribute>) -> Seq<RawAttributeView> {
    Seq::new(attributes.len(), |i: int| attributes[i]@)
}

/// The place of the first attribute of a type code, if there is one.
pub open spec fn first_of_type(attributes: Seq<RawAttributeView>, type_code: u16) -> Option<int>
    decreases attributes.len(),
{
    if attributes.len() == 0 {
        None
    } else if attributes[0].type_code == type_code {
        Some(0)
    } else {
        match first_of_type(attributes.drop_first(), type_code) {
            Some(i) => Some(i + 1),
            None => None,
        }
    }
}

impl MessageView {
    /// The typed attribute that a lookup gives: the first attribute of the
    /// type code decides, and where its value does not read as the typed
    /// attribute, or no attribute has the type code, the attribute is absent.
    pub open spec fn attr<T: Attribute>(self) -> Option<T> {
        match first_of_type(self.attributes, T::TYPE) {
            Some(i) => T::decoded(self.attributes[i].value, self.transaction_id),
            None => None,
        }
    }
}

impl Message {
    /// A message without attributes.
    pub fn new(class: Class, method: Method, transaction_id: TransactionId) -> (message: Message)
        ensures
            message@ == (MessageView {
                class,
                method,
                transaction_id,
                attributes: Seq::<RawAttributeView>::empty(),
            }),
    {
        let message = Message { class, method, transaction_id, attributes: Vec::new() };
        assert(message@.attributes =~= Seq::<RawAttributeView>::empty());
        message
    }

    /// Appends an attribute after those that the message holds.
    pub fn add_attribute(&mut self, attribute: RawAttribute)
        ensures
            final(self)@ == (MessageView {
                attributes: old(self)@.attributes.push(attribute@),
                ..old(self)@
            }),
    {
        self.attributes.push(attribute);
        assert(self@.attributes =~= old(self)@.attributes.push(attribute@));
    }

    /// Looks up a typed attribute: the first attribute of its type code, read
    /// with the transaction identifier of this message.
    pub fn attr<T: Attribute>(&self) -> (attribute: Option<T>)
        ensures
            attribute == self@.attr::<T>(),
    {
        let mut i: usize = 0;
        assert(self@.attributes.skip(0) =~= self@.attributes);
        while i < self.attributes.len()
            invariant
                i <= self.attributes.len(),
                first_of_type(self@.attributes, T::TYPE) == match first_of_type(
                    self@.attributes.skip(i as int),
                    T::TYPE,
                ) {
                    Some(k) => Some(k + i),
                    None => None,
                },
            decreases self.attributes.len() - i,
        {
            let ghost rest = self@.attributes.skip(i as int);
            assert(rest[0] == self.attributes@[i as int]@);
            assert(rest.drop_first() =~= self@.attributes.skip(i + 1));
            if self.attributes[i].type_code() == T::TYPE {
                return T::from_raw(self.attributes[i].value(), &self.transaction_id);
            }
            i += 1;
        }
        None
    }
}

} // verus!
