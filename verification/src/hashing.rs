//! The hash primitives that scripts and commitments rest on.

use vstd::prelude::*;

verus! {

/// The SHA-256 digest of a byte string.
pub uninterp spec fn sha256_digest(data: Seq<u8>) -> Seq<u8>;

/// The RIPEMD-160 digest of a byte string.
pub uninterp spec fn ripemd160_digest(data: Seq<u8>) -> Seq<u8>;

/// SHA-256 of `data`.
///
/// Wraps `sha2::Sha256::digest`: the result is the 32-byte digest, a
/// function of the input bytes alone.
#[verifier::external_body]
pub(crate) fn sha256(data: &[u8]) -> (digest: [u8; 32])
    ensures
        digest@ == sha256_digest(data@),
{
    <sha2::Sha256 as sha2::Digest>::digest(data).into()
}

/// RIPEMD-160 of `data`.
///
/// Wraps `ripemd::Ripemd160::digest`: the result is the 20-byte digest, a
/// function of the input bytes alone.
#[verifier::external_body]
pub(crate) fn ripemd160(data: &[u8]) -> (digest: [u8; 20])
    ensures
        digest@ == ripemd160_digest(data@),
{
    <ripemd::Ripemd160 as ripemd::Digest>::digest(data).into()
}

/// SHA-256 applied twice.
pub fn double_sha256(data: &[u8]) -> (digest: [u8; 32])
    ensures
        digest@ == sha256_digest(sha256_digest(data@)),
{
    let first = sha256(data);
    sha256(first.as_slice())
}

/// RIPEMD-160 of the SHA-256 digest.
pub fn hash160(data: &[u8]) -> (digest: [u8; 20])
    ensures
        digest@ == ripemd160_digest(sha256_digest(data@)),
{
    let first = sha256(data);
    ripemd160(first.as_slice())
}

} // verus!
