//! Candidates: the addresses at which a peer may be reached.

pub mod candidate;

pub use self::candidate::Candidate;
