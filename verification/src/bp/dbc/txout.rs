//! Embedding a commitment into a whole transaction output: the value is
//! carried over, the output script takes the commitment.

use super::scriptpubkey::{
    scriptpubkey_embedding, ScriptPubkeyCommitment, ScriptPubkeyCommitmentView,
    ScriptPubkeyContainer, ScriptPubkeyContainerView,
};
use super::Error;
use crate::primitives::commit_verify::{
    CommitmentVerify, EmbedCommittable, EmbeddedCommitment, Verifiable,
};
use vstd::prelude::*;

verus! {

/// What a [`TxoutContainer`] holds.
pub struct TxoutContainerView {
    /// The value of the output.
    pub value: u64,
    /// What the output script is made of.
    pub script_container: ScriptPubkeyContainerView,
}

/// A transaction output before the commitment.
#[derive(Clone, Debug, PartialEq, Eq)]
pub struct TxoutContainer {
    /// The value of the output.
    pub value: u64,
    /// What the output script is made of.
    pub script_container: ScriptPubkeyContainer,
}

/// The view of a [`TxoutContainer`] holds its value and the view of its
/// script container.
impl View for TxoutContainer {
    type V = TxoutContainerView;

    open spec fn view(&self) -> TxoutContainerView {
        TxoutContainerView { value: self.value, script_container: self.script_container@ }
    }
}

/// What a [`TxoutCommitment`] holds.
pub struct TxoutCommitmentView {
    /// The value of the output.
    pub value: u64,
    /// The output script that commits to the message.
    pub script_commitment: ScriptPubkeyCommitmentView,
}

/// A transaction output whose script commits to a message.
#[derive(Clone, Debug, PartialEq, Eq)]
pub struct TxoutCommitment {
    /// The value of the output.
    pub value: u64,
    /// The output script that commits to the message.
    pub script_commitment: ScriptPubkeyCommitment,
}

/// The view of a [`TxoutCommitment`] holds its value and the view of its
/// script commitment.
impl View for TxoutCommitment {
    type V = TxoutCommitmentView;

    open spec fn view(&self) -> TxoutCommitmentView {
        TxoutCommitmentView { value: self.value, script_commitment: self.script_commitment@ }
    }
}

/// The outcome of embedding a commitment to `msg` into an output: that of
/// embedding it into the output script, beside the unchanged value.
pub open spec fn txout_embedding(container: TxoutContainerView, msg: Seq<u8>) -> Result<
    TxoutCommitmentView,
    Error,
> {
    match scriptpubkey_embedding(container.script_container, msg) {
        Ok(script_commitment) => Ok(
            TxoutCommitmentView { value: container.value, script_commitment },
        ),
        Err(error) => Err(error),
    }
}

/// The container that an output commitment was made from.
pub open spec fn txout_container(commitment: TxoutCommitmentView) -> TxoutContainerView {
    TxoutContainerView {
        value: commitment.value,
        script_container: commitment.script_commitment.container,
    }
}

impl TxoutCommitment {
    /// The container that this commitment was made from.
    pub fn container(&self) -> (container: TxoutContainer)
        ensures
            container@ == txout_container(self@),
    {
        TxoutContainer {
            value: self.value,
            script_container: self.script_commitment.get_original_container(),
        }
    }

    /// Embeds a commitment to `msg` into the output script of `container`
    /// and carries the value over. Fails exactly where the output script
    /// refuses the commitment, with its error.
    pub fn commit_embed(container: TxoutContainer, msg: &Vec<u8>) -> (made: Result<Self, Error>)
        ensures
            match made {
                Ok(commitment) => txout_embedding(container@, msg@) == Ok::<
                    TxoutCommitmentView,
                    Error,
                >(commitment@),
                Err(error) => txout_embedding(container@, msg@) == Err::<
                    TxoutCommitmentView,
                    Error,
                >(error),
            },
    {
        match ScriptPubkeyCommitment::commit_to(container.script_container, msg) {
            Ok(script_commitment) => Ok(
                TxoutCommitment { value: container.value, script_commitment },
            ),
            Err(error) => Err(error),
        }
    }
}

/// A commitment embedded into an output, for messages given as bytes.
impl EmbeddedCommitment<Vec<u8>> for TxoutCommitment {
    type Container = TxoutContainer;

    type Error = Error;

    open spec fn original_container(commitment: TxoutCommitmentView) -> TxoutContainerView {
        txout_container(commitment)
    }

    open spec fn embedding(container: TxoutContainerView, msg: &Vec<u8>) -> Result<
        TxoutCommitmentView,
        Error,
    > {
        txout_embedding(container, msg@)
    }

    proof fn embedding_keeps_container(container: TxoutContainerView, msg: &Vec<u8>) {
    }

    fn equals(&self, other: &Self) -> (same: bool) {
        self.value == other.value && self.script_commitment.equals(&other.script_commitment)
    }

    fn get_original_container(&self) -> (container: TxoutContainer) {
        self.container()
    }

    fn commit_to(container: TxoutContainer, msg: &Vec<u8>) -> (made: Result<Self, Error>) {
        TxoutCommitment::commit_embed(container, msg)
    }
}

/// The commitment verifies the messages whose embedding into its container
/// gives the commitment.
impl CommitmentVerify<Vec<u8>> for TxoutCommitment {
    open spec fn verifies(&self, msg: &Vec<u8>) -> bool {
        txout_embedding(txout_container(self@), msg@) == Ok::<TxoutCommitmentView, Error>(self@)
    }

    fn reveal_verify(&self, msg: &Vec<u8>) -> (ok: bool) {
        <Self as EmbeddedCommitment<Vec<u8>>>::reveal_verify(self, msg)
    }
}

/// A message given as bytes can be checked against a [`TxoutCommitment`].
impl Verifiable<TxoutCommitment> for Vec<u8> {
}

/// A message given as bytes can be embedded as a [`TxoutCommitment`].
impl EmbedCommittable<TxoutCommitment> for Vec<u8> {
}

/// Verifying an output is verifying its script with the value held
/// constant: an output commitment is the outcome of embedding `msg` into a
/// container exactly when its value is that of the container and its script
/// commitment is the outcome of embedding `msg` into the container's output
/// script.
pub proof fn txout_verification_is_componentwise(
    container: TxoutContainerView,
    commitment: TxoutCommitmentView,
    msg: Seq<u8>,
)
    ensures
        (txout_embedding(container, msg) == Ok::<TxoutCommitmentView, Error>(commitment)) == (
        commitment.value == container.value && scriptpubkey_embedding(
            container.script_container,
            msg,
        ) == Ok::<ScriptPubkeyCommitmentView, Error>(commitment.script_commitment)),
{
}

/// An output commitment verifies against a message exactly when its script
/// commitment does.
pub proof fn txout_verifies_as_script(commitment: TxoutCommitment, msg: Vec<u8>)
    ensures
        commitment.verifies(&msg) == commitment.script_commitment.verifies(&msg),
{
    let view = commitment@;
    let inner = scriptpubkey_embedding(view.script_commitment.container, msg@);
    if inner is Ok {
        assert(inner->Ok_0.container == view.script_commitment.container);
    }
}

} // verus!
