//! What arrives on one socket, told apart by protocol.

pub mod codec;

pub use self::codec::{MuxDecoder, MuxMessage};
