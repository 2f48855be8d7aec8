//! Hashing and signature checking, done by outside crates.
use vstd::prelude::*;

verus! {

/// The BLAKE2b-256 digest of a byte string.
pub uninterp spec fn blake2b_256_digest(data: Seq<u8>) -> Seq<u8>;

/// BLAKE2b-256 (`cryptoxide::hashing::blake2b_256`): a 32-byte digest that
/// depends on the input bytes alone.
#[verifier::external_body]
pub(crate) fn blake2b_256(data: &[u8]) -> (r: Vec<u8>)
    ensures
        r@ == blake2b_256_digest(data@),
        r@.len() == 32,
{
    cryptoxide::hashing::blake2b_256(data).to_vec()
}

} // verus!
