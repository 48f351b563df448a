//! Session traversal utilities for NAT: the message model, the wire codec,
//! the transaction registry and the retry policy of a binding-discovery
//! client, together with a session-description parser.

pub mod ice;
pub mod sdp;
pub mod stun;
pub mod webrtc;
