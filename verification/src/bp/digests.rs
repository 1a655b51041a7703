//! Digests computed by the `bitcoin` hashing library.
//!
//! Each digest is a fixed function of its input bytes. The library does not
//! restate the algorithms: every digest has a name in specifications, and the
//! function that computes it is trusted to return that named value.

use vstd::prelude::*;

verus! {

/// SHA-256 of `data`.
pub uninterp spec fn sha256(data: Seq<u8>) -> Seq<u8>;

/// Double SHA-256 of `data`.
pub uninterp spec fn sha256d(data: Seq<u8>) -> Seq<u8>;

/// RIPEMD-160 of the SHA-256 of `data`.
pub uninterp spec fn hash160(data: Seq<u8>) -> Seq<u8>;

/// HMAC-SHA-256 of `data` under `key`.
pub uninterp spec fn hmac_sha256(key: Seq<u8>, data: Seq<u8>) -> Seq<u8>;

/// SHA-256 of `data` continued from `midstate`, the state of the hash after
/// one 64-byte block of tag material.
pub uninterp spec fn sha256_tagged(midstate: Seq<u8>, data: Seq<u8>) -> Seq<u8>;

/// Calls `bitcoin::hashes::sha256::Hash::hash`. Trusted: the 32 bytes that
/// come back are the value named [`sha256`] for the same input.
#[verifier::external_body]
pub(crate) fn sha256_digest(data: &[u8]) -> (digest: [u8; 32])
    ensures
        digest@ == sha256(data@),
{
    let hash: bitcoin::hashes::sha256::Hash = bitcoin::hashes::Hash::hash(data);
    bitcoin::hashes::Hash::into_inner(hash)
}

/// Calls `bitcoin::hashes::sha256d::Hash::hash`. Trusted: the 32 bytes that
/// come back are the value named [`sha256d`] for the same input.
#[verifier::external_body]
pub(crate) fn sha256d_digest(data: &[u8]) -> (digest: [u8; 32])
    ensures
        digest@ == sha256d(data@),
{
    let hash: bitcoin::hashes::sha256d::Hash = bitcoin::hashes::Hash::hash(data);
    bitcoin::hashes::Hash::into_inner(hash)
}

/// Calls `bitcoin::hashes::hash160::Hash::hash`. Trusted: the 20 bytes that
/// come back are the value named [`hash160`] for the same input.
#[verifier::external_body]
pub(crate) fn hash160_digest(data: &[u8]) -> (digest: [u8; 20])
    ensures
        digest@ == hash160(data@),
{
    let hash: bitcoin::hashes::hash160::Hash = bitcoin::hashes::Hash::hash(data);
    bitcoin::hashes::Hash::into_inner(hash)
}

/// Feeds `data` to `bitcoin::hashes::HmacEngine::<sha256::Hash>::new(key)`
/// and finishes it. Trusted: the 32 bytes that come back are the value named
/// [`hmac_sha256`] for the same key and data.
#[verifier::external_body]
pub(crate) fn hmac_sha256_digest(key: &[u8], data: &[u8]) -> (digest: [u8; 32])
    ensures
        digest@ == hmac_sha256(key@, data@),
{
    let mut engine = bitcoin::hashes::HmacEngine::<bitcoin::hashes::sha256::Hash>::new(key);
    bitcoin::hashes::HashEngine::input(&mut engine, data);
    let mac: bitcoin::hashes::Hmac<bitcoin::hashes::sha256::Hash> =
        bitcoin::hashes::Hash::from_engine(engine);
    bitcoin::hashes::Hash::into_inner(mac)
}

/// Starts `bitcoin::hashes::sha256::HashEngine::from_midstate` at `midstate`
/// with one block already consumed, feeds it `data` and finishes it.
/// Trusted: the 32 bytes that come back are the value named
/// [`sha256_tagged`] for the same midstate and data.
#[verifier::external_body]
pub(crate) fn sha256_tagged_digest(midstate: &[u8; 32], data: &[u8]) -> (digest: [u8; 32])
    ensures
        digest@ == sha256_tagged(midstate@, data@),
{
    let state = bitcoin::hashes::sha256::Midstate::from_inner(*midstate);
    let mut engine = bitcoin::hashes::sha256::HashEngine::from_midstate(state, 64);
    bitcoin::hashes::HashEngine::input(&mut engine, data);
    let hash: bitcoin::hashes::sha256::Hash = bitcoin::hashes::Hash::from_engine(engine);
    bitcoin::hashes::Hash::into_inner(hash)
}

} // verus!
