use vstd::prelude::*;

verus! {

/// What can go wrong in this module's operations.
#[derive(Debug, Clone, Copy, PartialEq, Eq, Structural)]
pub enum Error {
    /// The value of an attribute is longer than `RawAttribute::MAX_LEN` bytes.
    AttributeTooLarge,
    /// The attributes of a message do not fit in the length field of its header.
    MessageTooLarge,
    /// The transport failed while a request was in flight.
    Transport,
    /// The delivery channel of a request was closed before a response came.
    Cancelled,
    /// Every attempt of a request timed out.
    ExhaustedRetries { attempts: u32 },
    /// A response came, but without the attribute that the call is for.
    MissingAttribute,
}

} // verus!
