//! SHA-256 digests computed by the `sha2` crate.
use vstd::prelude::*;
use sha2::{Digest, Sha256};

verus! {

/// The SHA-256 digest of a byte sequence (FIPS 180-4), as `sha2` computes it.
pub uninterp spec fn sha256(data: Seq<u8>) -> Seq<u8>;

/// `sha2::Sha256::digest`: the 32-byte SHA-256 digest of `data`.
///
/// Trusted: the contract claims only that the result is the SHA-256 digest of
/// exactly the given bytes; nothing is stated about which bytes that digest holds.
#[verifier::external_body]
pub fn sha256_digest(data: &[u8]) -> (d: [u8; 32])
    ensures
        d@ == sha256(data@),
{
    Sha256::digest(data).into()
}

} // verus!
