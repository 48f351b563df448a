//! The binding-discovery protocol: messages, their wire format, and the
//! decisions of a retrying client.

pub mod address;
pub mod client;
pub mod codec;
pub mod util;
pub mod error;
pub mod message;

pub use self::address::{IpAddress, SocketAddress};
pub use self::error::Error;
