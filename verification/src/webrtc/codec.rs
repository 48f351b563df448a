use crate::stun::codec::buffer::buffered;
use crate::stun::codec::{outcome, Header, MessageCodec, Outcome};
use crate::stun::error::Error;
use crate::stun::message::Message;
use bytes::BytesMut;
use vstd::prelude::*;

verus! {

/// What was read from the socket.
#[derive(Debug)]
pub enum MuxMessage {
    /// A message of the binding-discovery protocol.
    Stun(Message),
    /// Bytes that no decoder takes for its own.
    Unknown,
}

/// Reads what arrives on one socket, trying each protocol's decoder in turn.
pub struct MuxDecoder {
    stun: MessageCodec,
}

impl Default for MuxDecoder {
    fn default() -> (decoder: MuxDecoder)
        ensures
            decoder.pending() is None,
    {
        MuxDecoder { stun: MessageCodec::default() }
    }
}

impl MuxDecoder {
    /// The header that the decoder of the binding-discovery protocol keeps.
    pub closed spec fn pending(self) -> Option<Header> {
        self.stun.pending()
    }

    /// A decoder that has read nothing yet.
    pub fn new() -> (decoder: MuxDecoder)
        ensures
            decoder.pending() is None,
    {
        MuxDecoder { stun: MessageCodec::default() }
    }

    /// Reads one item from the front of `src`: `Ok(None)` where more bytes
    /// are needed, a message where one was read, and `Unknown` where the
    /// bytes are not a message. Bytes leave `src` only with a message.
    pub fn decode(&mut self, src: &mut BytesMut) -> (result: Result<Option<MuxMessage>, Error>)
        ensures
            match outcome(old(self).pending(), buffered(*old(src))) {
                Outcome::Incomplete { pending } => {
                    &&& result == Ok::<Option<MuxMessage>, Error>(None)
                    &&& buffered(*final(src)) == buffered(*old(src))
                    &&& final(self).pending() == pending
                },
                Outcome::Malformed => {
                    &&& result == Ok::<Option<MuxMessage>, Error>(Some(MuxMessage::Unknown))
                    &&& buffered(*final(src)) == buffered(*old(src))
                    &&& final(self).pending() is None
                },
                Outcome::Complete { message, consumed } => {
                    &&& result matches Ok(Some(MuxMessage::Stun(read)))
                    &&& read@ == message
                    &&& consumed <= buffered(*old(src)).len()
                    &&& buffered(*final(src)) == buffered(*old(src)).skip(consumed as int)
                    &&& final(self).pending() is None
                },
            },
    {
        match self.stun.decode(src) {
            Ok(Some(Some(item))) => Ok(Some(MuxMessage::Stun(item))),
            Ok(Some(None)) => Ok(Some(MuxMessage::Unknown)),
            Ok(None) => Ok(None),
            Err(e) => Err(e),
        }
    }
}

} // verus!
