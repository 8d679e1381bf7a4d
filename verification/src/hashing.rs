//! The cryptographic hash that binds a record's encoding to a beacon value.
//!
//! The digest itself is computed by an outside implementation of SHA-256;
//! here it is only named, so that every contract downstream can say that the
//! same preimage always yields the same digest.

use vstd::prelude::*;

verus! {

/// The SHA-256 digest of a byte sequence, named but not written out: a pure
/// function of its input, so equal preimages have equal digests.
pub uninterp spec fn sha256_of(data: Seq<u8>) -> Seq<u8>;

/// Relies on `sha2::Sha256` through `sha2::Digest::digest`: SHA-256 is a
/// function of the input bytes alone and always yields a 32-byte digest.
#[verifier::external_body]
pub(crate) fn sha256(data: &[u8]) -> (r: Vec<u8>)
    ensures
        r@ == sha256_of(data@),
        r@.len() == 32,
{
    <sha2::Sha256 as sha2::Digest>::digest(data).to_vec()
}

} // verus!
