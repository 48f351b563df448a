use vstd::prelude::*;

verus! {

/// The method of a message: a 12-bit value, held in two bytes of which the
/// first keeps its four high bits at zero.
#[derive(Debug, Clone, Copy, PartialEq, Eq)]
pub struct Method([u8; 2]);

impl Method {
    /// The invariant of the type: only the low 12 bits are in use.
    #[verifier::type_invariant]
    pub open spec fn wf(self) -> bool {
        self.bytes().len() == 2 && self.bytes()[0] <= 0x0f
    }

    /// The two bytes of the method, high byte first.
    pub closed spec fn bytes(self) -> Seq<u8> {
        self.0@
    }

    /// The method as a number below 4096.
    pub open spec fn value(self) -> nat {
        (self.bytes()[0] as nat) * 256 + self.bytes()[1] as nat
    }

    /// The method whose 12 bits are the four low bits of `high`, then `low`.
    pub closed spec fn of_bytes(high: u8, low: u8) -> Method {
        Method([high & 0x0f, low])
    }

    /// Keeps the low 12 bits of `bits`; the four high bits of the first byte are dropped.
    pub fn from_low_12_bits(bits: [u8; 2]) -> (method: Method)
        ensures
            method.wf(),
            method == Method::of_bytes(bits[0], bits[1]),
            method.bytes() == seq![bits[0] & 0x0f, bits[1]],
    {
        let first: u8 = bits[0];
        let high: u8 = first & 0x0f;
        assert(high <= 0x0f) by (bit_vector)
            requires
                high == first & 0x0f,
        ;
        let method = Method([high, bits[1]]);
        assert(method.0@ =~= seq![bits[0] & 0x0f, bits[1]]);
        assert(method.0 =~= Method::of_bytes(bits[0], bits[1]).0);
        method
    }

    /// The binding method, number 1.
    pub fn binding() -> (method: Method)
        ensures
            method.wf(),
            method == Method::of_bytes(0, 1),
            method.bytes() == seq![0u8, 1u8],
    {
        let method = Method([0, 1]);
        assert(method.0@ =~= seq![0u8, 1u8]);
        assert(0u8 & 0x0f == 0u8) by (bit_vector);
        assert(method.0 =~= Method::of_bytes(0, 1).0);
        method
    }

    /// The two bytes of the method, high byte first.
    pub fn as_bytes(&self) -> (bytes: [u8; 2])
        ensures
            bytes@ == self.bytes(),
            bytes[0] <= 0x0f,
    {
        proof {
            use_type_invariant(self);
        }
        self.0
    }
}

/// What the bytes of the method made of two bytes are.
pub proof fn lemma_method_of_bytes(high: u8, low: u8)
    ensures
        Method::of_bytes(high, low).wf(),
        Method::of_bytes(high, low).bytes() == seq![high & 0x0f, low],
{
    assert(high & 0x0f <= 0x0f) by (bit_vector);
    assert(Method::of_bytes(high, low).0@ =~= seq![high & 0x0f, low]);
}

/// Two methods are the same exactly when their bytes are.
pub proof fn lemma_method_by_bytes(a: Method, b: Method)
    ensures
        (a.bytes() == b.bytes()) <==> (a == b),
{
    if a.bytes() == b.bytes() {
        assert(a.0 =~= b.0);
    }
}

/// A method is made again of its own bytes.
pub proof fn lemma_method_of_own_bytes(method: Method)
    requires
        method.wf(),
    ensures
        Method::of_bytes(method.bytes()[0], method.bytes()[1]) == method,
{
    let high = method.bytes()[0];
    assert(high <= 0x0f ==> high & 0x0f == high) by (bit_vector);
    lemma_method_of_bytes(high, method.bytes()[1]);
    assert(Method::of_bytes(high, method.bytes()[1]).bytes() =~= method.bytes());
    lemma_method_by_bytes(Method::of_bytes(high, method.bytes()[1]), method);
}

} // verus!
