use vstd::prelude::*;

verus! {

/// The Keccak-256 digest of a byte sequence.
pub uninterp spec fn keccak_of(data: Seq<u8>) -> Seq<u8>;

/// Relies on `alloy::primitives::keccak256`: the Keccak-256 digest of `data`,
/// which depends on the bytes alone.
#[verifier::external_body]
pub(crate) fn keccak256(data: &[u8]) -> (r: [u8; 32])
    ensures
        r@ == keccak_of(data@),
{
    alloy::primitives::keccak256(data).0
}

} // verus!
