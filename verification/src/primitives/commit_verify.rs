//! The commit-verify algebra: what it means to commit to a message and to
//! verify a commitment, independent of any concrete scheme.
//!
//! A commitment is either *standalone*, made from the message alone, or
//! *embedded*, made from the message and a container that holds the object
//! the commitment is put into. Either way verification recomputes the
//! commitment and compares.

use vstd::prelude::*;

verus! {

/// A commitment that can be checked against a message.
pub trait CommitmentVerify<MSG>: Sized {
    /// Whether this is a commitment to `msg`.
    spec fn verifies(&self, msg: &MSG) -> bool;

    /// Decides whether this is a commitment to `msg`.
    fn reveal_verify(&self, msg: &MSG) -> (ok: bool)
        ensures
            ok == self.verifies(msg),
    ;
}

/// A commitment made from the message alone.
pub trait StandaloneCommitment<MSG>: Sized + View {
    /// The commitment to `msg`.
    spec fn commitment(msg: &MSG) -> Self::V;

    /// Decides whether this commitment and `other` hold the same.
    fn equals(&self, other: &Self) -> (same: bool)
        ensures
            same == (self@ == other@),
    ;

    /// Commits to `msg`.
    fn commit_to(msg: &MSG) -> (made: Self)
        ensures
            made@ == Self::commitment(msg),
    ;

    /// Recomputes the commitment to `msg` and compares it with this one.
    fn reveal_verify(&self, msg: &MSG) -> (ok: bool)
        ensures
            ok == (Self::commitment(msg) == self@),
    {
        Self::commit_to(msg).equals(self)
    }
}

/// A commitment made from a message and a container, from which the
/// container can be recovered.
pub trait EmbeddedCommitment<MSG>: Sized + View {
    /// What the commitment is embedded into, with all that is needed to
    /// redo the commitment.
    type Container: View;

    /// Why embedding can fail.
    type Error;

    /// The container that `commitment` was made from.
    spec fn original_container(commitment: Self::V) -> <Self::Container as View>::V;

    /// The outcome of embedding a commitment to `msg` into `container`.
    spec fn embedding(container: <Self::Container as View>::V, msg: &MSG) -> Result<
        Self::V,
        Self::Error,
    >;

    /// A commitment remembers the container that it was embedded into.
    proof fn embedding_keeps_container(container: <Self::Container as View>::V, msg: &MSG)
        ensures
            Self::embedding(container, msg) matches Ok(commitment) ==> Self::original_container(
                commitment,
            ) == container,
    ;

    /// Decides whether this commitment and `other` hold the same.
    fn equals(&self, other: &Self) -> (same: bool)
        ensures
            same == (self@ == other@),
    ;

    /// Recovers the container this commitment was made from.
    fn get_original_container(&self) -> (container: Self::Container)
        ensures
            container@ == Self::original_container(self@),
    ;

    /// Embeds a commitment to `msg` into `container`.
    fn commit_to(container: Self::Container, msg: &MSG) -> (made: Result<Self, Self::Error>)
        ensures
            match made {
                Ok(commitment) => Self::embedding(container@, msg) == Ok::<Self::V, Self::Error>(
                    commitment@,
                ),
                Err(error) => Self::embedding(container@, msg) == Err::<Self::V, Self::Error>(
                    error,
                ),
            },
    ;

    /// Redoes the embedding from the recovered container and compares the
    /// outcome with this commitment; a failed embedding verifies nothing.
    fn reveal_verify(&self, msg: &MSG) -> (ok: bool)
        ensures
            ok == (Self::embedding(Self::original_container(self@), msg) == Ok::<
                Self::V,
                Self::Error,
            >(self@)),
    {
        match Self::commit_to(self.get_original_container(), msg) {
            Ok(commitment) => commitment.equals(self),
            Err(_) => false,
        }
    }
}

/// A message that can be checked against a commitment.
pub trait Verifiable<CMT: CommitmentVerify<Self>>: Sized {
    /// Decides whether `commitment` commits to this message.
    fn verify(self, commitment: &CMT) -> (ok: bool)
        ensures
            ok == commitment.verifies(&self),
    {
        commitment.reveal_verify(&self)
    }
}

/// A message that a standalone commitment can be made from.
pub trait Committable<CMT: StandaloneCommitment<Self> + CommitmentVerify<Self>>: Verifiable<
    CMT,
> {
    /// Commits to this message.
    fn commit(self) -> (made: CMT)
        ensures
            made@ == CMT::commitment(&self),
    {
        CMT::commit_to(&self)
    }
}

/// A message that can be embedded into a container.
pub trait EmbedCommittable<CMT: EmbeddedCommitment<Self> + CommitmentVerify<Self>>: Verifiable<
    CMT,
> {
    /// Embeds a commitment to this message into `container`.
    fn commit_embed(self, container: CMT::Container) -> (made: Result<CMT, CMT::Error>)
        ensures
            match made {
                Ok(commitment) => CMT::embedding(container@, &self) == Ok::<CMT::V, CMT::Error>(
                    commitment@,
                ),
                Err(error) => CMT::embedding(container@, &self) == Err::<CMT::V, CMT::Error>(
                    error,
                ),
            },
    {
        CMT::commit_to(container, &self)
    }
}

/// What was embedded verifies: a commitment that comes out of embedding a
/// message into a container is the outcome of embedding the same message
/// into the container recovered from it.
pub proof fn embedded_commitment_verifies<CMT: EmbeddedCommitment<MSG>, MSG>(
    container: <CMT::Container as View>::V,
    msg: &MSG,
)
    ensures
        CMT::embedding(container, msg) matches Ok(commitment) ==> CMT::embedding(
            CMT::original_container(commitment),
            msg,
        ) == Ok::<CMT::V, CMT::Error>(commitment),
{
    CMT::embedding_keeps_container(container, msg);
}

/// Embedding is a function of the container and the message: two
/// embeddings of one message into containers that hold the same come out
/// the same, as commitments that hold the same or as the same error.
pub proof fn embedding_is_deterministic<CMT: EmbeddedCommitment<MSG>, MSG>(
    first_container: CMT::Container,
    second_container: CMT::Container,
    msg: &MSG,
    first: Result<CMT, CMT::Error>,
    second: Result<CMT, CMT::Error>,
)
    requires
        first_container@ == second_container@,
        call_ensures(CMT::commit_to, (first_container, msg), first),
        call_ensures(CMT::commit_to, (second_container, msg), second),
    ensures
        match (first, second) {
            (Ok(a), Ok(b)) => a@ == b@,
            (Err(a), Err(b)) => a == b,
            _ => false,
        },
{
}

/// Committing is a function of the message: two commitments to one message
/// hold the same.
pub proof fn commitment_is_deterministic<CMT: StandaloneCommitment<MSG>, MSG>(
    msg: &MSG,
    first: CMT,
    second: CMT,
)
    requires
        call_ensures(CMT::commit_to, (msg,), first),
        call_ensures(CMT::commit_to, (msg,), second),
    ensures
        first@ == second@,
{
}

/// A commitment does not verify against another message, unless embedding
/// that message into its container comes out the same as embedding the
/// message it was made for.
pub proof fn other_message_does_not_verify<CMT: EmbeddedCommitment<MSG>, MSG>(
    commitment: CMT::V,
    msg: &MSG,
    other: &MSG,
)
    requires
        CMT::embedding(CMT::original_container(commitment), msg) == Ok::<CMT::V, CMT::Error>(
            commitment,
        ),
        CMT::embedding(CMT::original_container(commitment), other) != CMT::embedding(
            CMT::original_container(commitment),
            msg,
        ),
    ensures
        CMT::embedding(CMT::original_container(commitment), other) != Ok::<CMT::V, CMT::Error>(
            commitment,
        ),
{
}

} // verus!
