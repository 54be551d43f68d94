//! The opaque hash primitive behind the operation.

use vstd::prelude::*;

verus! {

/// The Keccak-256 digest of a byte string. The algorithm itself is opaque
/// to this library; the digest is a function of the input bytes alone.
pub uninterp spec fn keccak_of(input: Seq<u8>) -> Seq<u8>;

/// Relies on `ethers_core::utils::keccak256`: a pure function of the input
/// bytes that always returns a 32-byte digest.
#[verifier::external_body]
pub(crate) fn keccak256_digest(input: &Vec<u8>) -> (r: Vec<u8>)
    ensures
        r@ == keccak_of(input@),
        r@.len() == 32,
{
    ethers_core::utils::keccak256(input.as_slice()).to_vec()
}

} // verus!
