use vstd::prelude::*;

verus! {

/// The 32-bit xxHash (seed 0) of `bytes`.
pub uninterp spec fn xxhash32(bytes: Seq<u8>) -> u32;

/// Calls `fasthash::xx::hash32`, the 32-bit xxHash with seed 0. Trusted to
/// return the same value for the same bytes, which the name `xxhash32`
/// stands for; what that value is, is not stated.
#[verifier::external_body]
pub(crate) fn xx_hash32(bytes: &[u8]) -> (h: u32)
    ensures
        h == xxhash32(bytes@),
{
    fasthash::xx::hash32(bytes)
}

} // verus!
