//! Account state and canonical encoding for an on-chain provably fair dice
//! game: a fixed-layout bet commitment record, its byte codec, and the
//! resolution protocol that binds the record to a chain randomness beacon.

pub mod bet;
pub mod error;
pub mod hashing;
pub mod resolve;
