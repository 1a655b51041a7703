//! Embedding a commitment into a single public key by tweaking it.
//!
//! The tweak is a scalar derived from the key and the message; the
//! commitment is the key plus the tweak times the generator.

use super::Error;
use crate::bp::digests::{hmac_sha256, hmac_sha256_digest, sha256, sha256_digest};
use crate::bp::keys::{secp256k1_tweak_add, PublicKey};
use crate::primitives::commit_verify::{
    CommitmentVerify, EmbedCommittable, EmbeddedCommitment, Verifiable,
};
use vstd::prelude::*;

verus! {

broadcast use vstd::array::group_array_axioms;

/// The scalar by which `key` is tweaked to commit to `msg`: the HMAC-SHA-256
/// of the message digest under the compressed key.
pub open spec fn tweak_factor(key: Seq<u8>, msg: Seq<u8>) -> Seq<u8> {
    hmac_sha256(key, sha256(msg))
}

/// The key that commits to `msg` on top of `key`; `None` where the tweak is
/// invalid for that key.
pub open spec fn tweaked_key(key: Seq<u8>, msg: Seq<u8>) -> Option<Seq<u8>> {
    secp256k1_tweak_add(key, tweak_factor(key, msg))
}

/// What a [`PubkeyCommitment`] holds: two compressed keys.
pub struct KeyTweak {
    /// The key before the commitment.
    pub original: Seq<u8>,
    /// The key after the commitment.
    pub tweaked: Seq<u8>,
}

/// The outcome of tweaking `key` to commit to `msg`: the key before and
/// after, or the refusal of an invalid tweak.
pub open spec fn pubkey_embedding(key: Seq<u8>, msg: Seq<u8>) -> Result<KeyTweak, Error> {
    match tweaked_key(key, msg) {
        Some(tweaked) => Ok(KeyTweak { original: key, tweaked }),
        None => Err(Error::InvalidTweak),
    }
}

/// A public key that commits to a message, with the key it was made from.
#[derive(Clone, Copy, Debug, PartialEq, Eq)]
pub struct PubkeyCommitment {
    /// The key before the commitment.
    pub original: PublicKey,
    /// The key after the commitment.
    pub tweaked: PublicKey,
}

/// The view of a [`PubkeyCommitment`] holds the bytes of its parts.
impl View for PubkeyCommitment {
    type V = KeyTweak;

    open spec fn view(&self) -> KeyTweak {
        KeyTweak { original: self.original@, tweaked: self.tweaked@ }
    }
}

/// A commitment embedded into a key, for messages given as bytes.
impl EmbeddedCommitment<Vec<u8>> for PubkeyCommitment {
    type Container = PublicKey;

    type Error = Error;

    open spec fn original_container(commitment: KeyTweak) -> Seq<u8> {
        commitment.original
    }

    open spec fn embedding(container: Seq<u8>, msg: &Vec<u8>) -> Result<KeyTweak, Error> {
        pubkey_embedding(container, msg@)
    }

    proof fn embedding_keeps_container(container: Seq<u8>, msg: &Vec<u8>) {
    }

    fn equals(&self, other: &Self) -> (same: bool) {
        self.original.equals(&other.original) && self.tweaked.equals(&other.tweaked)
    }

    fn get_original_container(&self) -> (container: PublicKey) {
        self.original
    }

    /// Tweaks the key by the scalar derived from it and from `msg`. Fails
    /// with [`Error::InvalidTweak`], and never retries, where the scalar is
    /// out of range or the tweaked key would be the point at infinity.
    fn commit_to(container: PublicKey, msg: &Vec<u8>) -> (made: Result<Self, Error>) {
        let key = container.serialize();
        let digest = sha256_digest(msg.as_slice());
        let factor = hmac_sha256_digest(&key, &digest);
        assert(factor@ == tweak_factor(container@, msg@));
        match container.tweak_add(&factor) {
            Some(tweaked) => {
                let made = PubkeyCommitment { original: container, tweaked };
                assert(Self::embedding(container@, msg) == Ok::<KeyTweak, Error>(made@));
                Ok(made)
            },
            None => Err(Error::InvalidTweak),
        }
    }
}

/// The commitment verifies the messages whose embedding into its container
/// gives the commitment.
impl CommitmentVerify<Vec<u8>> for PubkeyCommitment {
    open spec fn verifies(&self, msg: &Vec<u8>) -> bool {
        tweaked_key(self.original@, msg@) == Some(self.tweaked@)
    }

    fn reveal_verify(&self, msg: &Vec<u8>) -> (ok: bool) {
        <Self as EmbeddedCommitment<Vec<u8>>>::reveal_verify(self, msg)
    }
}

/// A message given as bytes can be checked against a [`PubkeyCommitment`].
impl Verifiable<PubkeyCommitment> for Vec<u8> {
}

/// A message given as bytes can be embedded as a [`PubkeyCommitment`].
impl EmbedCommittable<PubkeyCommitment> for Vec<u8> {
}

} // verus!
