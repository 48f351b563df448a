use vstd::prelude::*;

verus! {

/// The class of a message, carried on the wire in two bits.
#[derive(Debug, Clone, Copy, PartialEq, Eq, Structural)]
pub enum Class {
    Request,
    Indication,
    SuccessResponse,
    FailureResponse,
}

impl Class {
    /// The two-bit value that stands for this class on the wire.
    pub open spec fn bits(self) -> u8 {
        match self {
            Class::Request => 0b00,
            Class::Indication => 0b01,
            Class::SuccessResponse => 0b10,
            Class::FailureResponse => 0b11,
        }
    }

    /// The class that a two-bit value stands for.
    pub open spec fn of_bits(bits: u8) -> Class {
        if bits == 0b00 {
            Class::Request
        } else if bits == 0b01 {
            Class::Indication
        } else if bits == 0b10 {
            Class::SuccessResponse
        } else {
            Class::FailureResponse
        }
    }

    /// Reads a class from the two low bits of `bits`; the other bits are ignored.
    pub fn from_low_2_bits(bits: u8) -> (class: Class)
        ensures
            class == Class::of_bits(bits & 0b11),
            class.bits() == bits & 0b11,
    {
        let low: u8 = bits & 0b11;
        assert(low == 0 || low == 1 || low == 2 || low == 3) by (bit_vector)
            requires
                low == bits & 0b11,
        ;
        if low == 0b00 {
            Class::Request
        } else if low == 0b01 {
            Class::Indication
        } else if low == 0b10 {
            Class::SuccessResponse
        } else {
            Class::FailureResponse
        }
    }

    /// The class as a byte whose two low bits hold it and whose other bits are zero.
    pub fn as_byte(&self) -> (byte: u8)
        ensures
            byte == self.bits(),
            byte <= 0b11,
    {
        match self {
            Class::Request => 0b00,
            Class::Indication => 0b01,
            Class::SuccessResponse => 0b10,
            Class::FailureResponse => 0b11,
        }
    }
}

/// Every class is read back from its own bits.
pub proof fn lemma_class_of_bits_of_class(class: Class)
    ensures
        class.bits() <= 0b11,
        Class::of_bits(class.bits()) == class,
{
}

/// Every two-bit value is the bits of the class that it stands for.
pub proof fn lemma_bits_of_class_of_bits(bits: u8)
    requires
        bits <= 0b11,
    ensures
        Class::of_bits(bits).bits() == bits,
{
}

} // verus!
