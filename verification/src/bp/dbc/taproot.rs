//! Embedding a commitment into a taproot output: the root of the script
//! tree is carried over, the intermediate key takes the commitment.

use super::pubkey::{pubkey_embedding, KeyTweak, PubkeyCommitment};
use super::Error;
use crate::bp::keys::PublicKey;
use crate::common::bytes::bytes_equal;
use crate::primitives::commit_verify::{
    CommitmentVerify, EmbedCommittable, EmbeddedCommitment, Verifiable,
};
use vstd::prelude::*;

verus! {

broadcast use vstd::array::group_array_axioms;

/// What a [`TaprootContainer`] holds.
pub struct TaprootContainerView {
    /// The root hash of the script tree.
    pub script_root: Seq<u8>,
    /// The intermediate key, compressed.
    pub intermediate_key: Seq<u8>,
}

/// A taproot output before the commitment.
#[derive(Clone, Copy, Debug, PartialEq, Eq)]
pub struct TaprootContainer {
    /// The root hash of the script tree.
    pub script_root: [u8; 32],
    /// The intermediate key.
    pub intermediate_key: PublicKey,
}

/// The view of a [`TaprootContainer`] holds the bytes of its parts.
impl View for TaprootContainer {
    type V = TaprootContainerView;

    open spec fn view(&self) -> TaprootContainerView {
        TaprootContainerView {
            script_root: self.script_root@,
            intermediate_key: self.intermediate_key@,
        }
    }
}

/// What a [`TaprootCommitment`] holds.
pub struct TaprootCommitmentView {
    /// The root hash of the script tree.
    pub script_root: Seq<u8>,
    /// The intermediate key before and after the commitment.
    pub pubkey_commitment: KeyTweak,
}

/// A taproot output whose intermediate key commits to a message.
#[derive(Clone, Copy, Debug, PartialEq, Eq)]
pub struct TaprootCommitment {
    /// The root hash of the script tree.
    pub script_root: [u8; 32],
    /// The intermediate key before and after the commitment.
    pub pubkey_commitment: PubkeyCommitment,
}

/// The view of a [`TaprootCommitment`] holds the bytes of its parts.
impl View for TaprootCommitment {
    type V = TaprootCommitmentView;

    open spec fn view(&self) -> TaprootCommitmentView {
        TaprootCommitmentView {
            script_root: self.script_root@,
            pubkey_commitment: self.pubkey_commitment@,
        }
    }
}

/// The outcome of embedding a commitment to `msg` into a taproot output:
/// that of tweaking the intermediate key, beside the unchanged script root.
pub open spec fn taproot_embedding(container: TaprootContainerView, msg: Seq<u8>) -> Result<
    TaprootCommitmentView,
    Error,
> {
    match pubkey_embedding(container.intermediate_key, msg) {
        Ok(pubkey_commitment) => Ok(
            TaprootCommitmentView { script_root: container.script_root, pubkey_commitment },
        ),
        Err(error) => Err(error),
    }
}

/// The container that a taproot commitment was made from.
pub open spec fn taproot_container(commitment: TaprootCommitmentView) -> TaprootContainerView {
    TaprootContainerView {
        script_root: commitment.script_root,
        intermediate_key: commitment.pubkey_commitment.original,
    }
}

/// A commitment embedded into a taproot output, for messages given as bytes.
impl EmbeddedCommitment<Vec<u8>> for TaprootCommitment {
    type Container = TaprootContainer;

    type Error = Error;

    open spec fn original_container(commitment: TaprootCommitmentView) -> TaprootContainerView {
        taproot_container(commitment)
    }

    open spec fn embedding(container: TaprootContainerView, msg: &Vec<u8>) -> Result<
        TaprootCommitmentView,
        Error,
    > {
        taproot_embedding(container, msg@)
    }

    proof fn embedding_keeps_container(container: TaprootContainerView, msg: &Vec<u8>) {
    }

    fn equals(&self, other: &Self) -> (same: bool) {
        bytes_equal(&self.script_root, &other.script_root) && self.pubkey_commitment.equals(
            &other.pubkey_commitment,
        )
    }

    fn get_original_container(&self) -> (container: TaprootContainer) {
        let container = TaprootContainer {
            script_root: self.script_root,
            intermediate_key: self.pubkey_commitment.original,
        };
        assert(container@.intermediate_key == self.pubkey_commitment@.original);
        assert(container@ == taproot_container(self@));
        container
    }

    /// Tweaks the intermediate key to commit to `msg` and carries the
    /// script root over. Fails exactly where the tweak is invalid.
    fn commit_to(container: TaprootContainer, msg: &Vec<u8>) -> (made: Result<Self, Error>) {
        match PubkeyCommitment::commit_to(container.intermediate_key, msg) {
            Ok(pubkey_commitment) => {
                let made = TaprootCommitment {
                    script_root: container.script_root,
                    pubkey_commitment,
                };
                assert(pubkey_embedding(container@.intermediate_key, msg@) == Ok::<
                    KeyTweak,
                    Error,
                >(pubkey_commitment@));
                assert(taproot_embedding(container@, msg@) == Ok::<TaprootCommitmentView, Error>(
                    made@,
                ));
                Ok(made)
            },
            Err(error) => {
                assert(pubkey_embedding(container@.intermediate_key, msg@) == Err::<
                    KeyTweak,
                    Error,
                >(error));
                Err(error)
            },
        }
    }
}

/// The commitment verifies the messages whose embedding into its container
/// gives the commitment.
impl CommitmentVerify<Vec<u8>> for TaprootCommitment {
    open spec fn verifies(&self, msg: &Vec<u8>) -> bool {
        taproot_embedding(taproot_container(self@), msg@) == Ok::<TaprootCommitmentView, Error>(
            self@,
        )
    }

    fn reveal_verify(&self, msg: &Vec<u8>) -> (ok: bool) {
        <Self as EmbeddedCommitment<Vec<u8>>>::reveal_verify(self, msg)
    }
}

/// A message given as bytes can be checked against a [`TaprootCommitment`].
impl Verifiable<TaprootCommitment> for Vec<u8> {
}

/// A message given as bytes can be embedded as a [`TaprootCommitment`].
impl EmbedCommittable<TaprootCommitment> for Vec<u8> {
}

/// Verifying a taproot output is verifying its key with the script root
/// held constant: a taproot commitment is the outcome of embedding `msg`
/// into a container exactly when its script root is that of the container
/// and its key commitment is the outcome of tweaking the container's
/// intermediate key.
pub proof fn taproot_verification_is_componentwise(
    container: TaprootContainerView,
    commitment: TaprootCommitmentView,
    msg: Seq<u8>,
)
    ensures
        (taproot_embedding(container, msg) == Ok::<TaprootCommitmentView, Error>(commitment)) == (
        commitment.script_root == container.script_root && pubkey_embedding(
            container.intermediate_key,
            msg,
        ) == Ok::<KeyTweak, Error>(commitment.pubkey_commitment)),
{
}

/// A taproot commitment verifies against a message exactly when its key
/// commitment does.
pub proof fn taproot_verifies_as_key(commitment: TaprootCommitment, msg: Vec<u8>)
    ensures
        commitment.verifies(&msg) == commitment.pubkey_commitment.verifies(&msg),
{
}

} // verus!
