//! Embedding a commitment into the script of a transaction output.
//!
//! An output script follows one of a closed set of templates. The templates
//! that hold a key route the commitment to the key tweak; those that hold a
//! script route it to the lock-script rewrite; the template is then written
//! again around the tweaked key, the rewritten script or their hash. A
//! script that follows no template is refused.

use super::lockscript::{
    lockscript_embedding, LockscriptCommitment, LockscriptContainer, LockscriptContainerView,
};
use super::pubkey::{tweaked_key, PubkeyCommitment};
use super::Error;
use crate::bp::digests::{hash160, hash160_digest, sha256, sha256_digest};
use crate::bp::keys::PublicKey;
use crate::common::bytes::{bytes_equal, copy_bytes};
use crate::primitives::commit_verify::{
    CommitmentVerify, EmbedCommittable, EmbeddedCommitment, Verifiable,
};
use vstd::prelude::*;

verus! {

broadcast use vstd::array::group_array_axioms;

/// The templates of an output script.
#[derive(Clone, Copy, Debug, PartialEq, Eq, Structural)]
pub enum ScriptTemplate {
    /// A key and a signature check.
    BareKey,
    /// The hash of a key, to be matched by a key that signs.
    KeyHash,
    /// The hash of a script, to be matched by a script that is then run.
    ScriptHash,
    /// Witness version 0 with the 20-byte hash of a key.
    WitnessKeyHash,
    /// Witness version 0 with the 32-byte hash of a script.
    WitnessScriptHash,
    /// Any other script: a bare script when it is a lock script, else
    /// unsupported.
    Other,
}

/// The output script that pays to the bare compressed `key`.
pub open spec fn bare_key_script(key: Seq<u8>) -> Seq<u8> {
    seq![33u8] + key + seq![0xacu8]
}

/// The output script that pays to the key hash `hash`.
pub open spec fn key_hash_script(hash: Seq<u8>) -> Seq<u8> {
    seq![0x76u8, 0xa9u8, 20u8] + hash + seq![0x88u8, 0xacu8]
}

/// The output script that pays to the script hash `hash`.
pub open spec fn script_hash_script(hash: Seq<u8>) -> Seq<u8> {
    seq![0xa9u8, 20u8] + hash + seq![0x87u8]
}

/// The version-0 witness program of the 20-byte key hash `hash`.
pub open spec fn witness_key_hash_script(hash: Seq<u8>) -> Seq<u8> {
    seq![0u8, 20u8] + hash
}

/// The version-0 witness program of the 32-byte script hash `hash`.
pub open spec fn witness_script_hash_script(hash: Seq<u8>) -> Seq<u8> {
    seq![0u8, 32u8] + hash
}

/// The template that the bytes of an output script follow.
pub open spec fn template_of(script: Seq<u8>) -> ScriptTemplate {
    if (script.len() == 35 && script[0] == 33 && script[34] == 0xac) || (script.len() == 67
        && script[0] == 65 && script[66] == 0xac) {
        ScriptTemplate::BareKey
    } else if script.len() == 25 && script[0] == 0x76 && script[1] == 0xa9 && script[2] == 20
        && script[23] == 0x88 && script[24] == 0xac {
        ScriptTemplate::KeyHash
    } else if script.len() == 23 && script[0] == 0xa9 && script[1] == 20 && script[22] == 0x87 {
        ScriptTemplate::ScriptHash
    } else if script.len() == 22 && script[0] == 0 && script[1] == 20 {
        ScriptTemplate::WitnessKeyHash
    } else if script.len() == 34 && script[0] == 0 && script[1] == 32 {
        ScriptTemplate::WitnessScriptHash
    } else {
        ScriptTemplate::Other
    }
}

/// Tells which template an output script follows.
pub fn classify(script: &[u8]) -> (template: ScriptTemplate)
    ensures
        template == template_of(script@),
{
    let n = script.len();
    if (n == 35 && script[0] == 33 && script[34] == 0xac) || (n == 67 && script[0] == 65
        && script[66] == 0xac) {
        ScriptTemplate::BareKey
    } else if n == 25 && script[0] == 0x76 && script[1] == 0xa9 && script[2] == 20 && script[23]
        == 0x88 && script[24] == 0xac {
        ScriptTemplate::KeyHash
    } else if n == 23 && script[0] == 0xa9 && script[1] == 20 && script[22] == 0x87 {
        ScriptTemplate::ScriptHash
    } else if n == 22 && script[0] == 0 && script[1] == 20 {
        ScriptTemplate::WitnessKeyHash
    } else if n == 34 && script[0] == 0 && script[1] == 32 {
        ScriptTemplate::WitnessScriptHash
    } else {
        ScriptTemplate::Other
    }
}

/// Writes the output script that pays to the bare compressed `key`.
pub fn write_bare_key_script(key: &[u8; 33]) -> (script: Vec<u8>)
    ensures
        script@ == bare_key_script(key@),
{
    let mut script: Vec<u8> = Vec::new();
    script.push(33);
    script.extend_from_slice(key);
    script.push(0xac);
    assert(script@ =~= bare_key_script(key@));
    script
}

/// Writes the output script that pays to the key hash `hash`.
pub fn write_key_hash_script(hash: &[u8; 20]) -> (script: Vec<u8>)
    ensures
        script@ == key_hash_script(hash@),
{
    let mut script: Vec<u8> = Vec::new();
    script.push(0x76);
    script.push(0xa9);
    script.push(20);
    script.extend_from_slice(hash);
    script.push(0x88);
    script.push(0xac);
    assert(script@ =~= key_hash_script(hash@));
    script
}

/// Writes the output script that pays to the script hash `hash`.
pub fn write_script_hash_script(hash: &[u8; 20]) -> (script: Vec<u8>)
    ensures
        script@ == script_hash_script(hash@),
{
    let mut script: Vec<u8> = Vec::new();
    script.push(0xa9);
    script.push(20);
    script.extend_from_slice(hash);
    script.push(0x87);
    assert(script@ =~= script_hash_script(hash@));
    script
}

/// Writes the version-0 witness program of the key hash `hash`.
pub fn write_witness_key_hash_script(hash: &[u8; 20]) -> (script: Vec<u8>)
    ensures
        script@ == witness_key_hash_script(hash@),
{
    let mut script: Vec<u8> = Vec::new();
    script.push(0);
    script.push(20);
    script.extend_from_slice(hash);
    assert(script@ =~= witness_key_hash_script(hash@));
    script
}

/// Writes the version-0 witness program of the script hash `hash`.
pub fn write_witness_script_hash_script(hash: &[u8; 32]) -> (script: Vec<u8>)
    ensures
        script@ == witness_script_hash_script(hash@),
{
    let mut script: Vec<u8> = Vec::new();
    script.push(0);
    script.push(32);
    script.extend_from_slice(hash);
    assert(script@ =~= witness_script_hash_script(hash@));
    script
}

/// What a [`ScriptPubkeyContainer`] holds.
pub enum ScriptPubkeyContainerView {
    /// A bare key.
    BareKey(Seq<u8>),
    /// A key behind its hash.
    KeyHash(Seq<u8>),
    /// A key behind its hash in a witness program.
    WitnessKeyHash(Seq<u8>),
    /// A lock script behind its hash.
    ScriptHash(LockscriptContainerView),
    /// A lock script behind its hash in a witness program.
    WitnessScriptHash(LockscriptContainerView),
    /// A lock script that is itself the output script.
    BareScript(LockscriptContainerView),
    /// An output script of no supported template.
    Unsupported(Seq<u8>),
}

/// What an output script is made of, with the template that it follows.
#[derive(Clone, Debug, PartialEq, Eq)]
pub enum ScriptPubkeyContainer {
    /// A bare key.
    BareKey(PublicKey),
    /// A key behind its hash.
    KeyHash(PublicKey),
    /// A key behind its hash in a witness program.
    WitnessKeyHash(PublicKey),
    /// A lock script behind its hash.
    ScriptHash(LockscriptContainer),
    /// A lock script behind its hash in a witness program.
    WitnessScriptHash(LockscriptContainer),
    /// A lock script that is itself the output script.
    BareScript(LockscriptContainer),
    /// An output script of no supported template.
    Unsupported(Vec<u8>),
}

/// The view of a [`ScriptPubkeyContainer`] holds the bytes of its parts.
impl View for ScriptPubkeyContainer {
    type V = ScriptPubkeyContainerView;

    open spec fn view(&self) -> ScriptPubkeyContainerView {
        match self {
            ScriptPubkeyContainer::BareKey(key) => ScriptPubkeyContainerView::BareKey(key@),
            ScriptPubkeyContainer::KeyHash(key) => ScriptPubkeyContainerView::KeyHash(key@),
            ScriptPubkeyContainer::WitnessKeyHash(key) => ScriptPubkeyContainerView::WitnessKeyHash(
                key@,
            ),
            ScriptPubkeyContainer::ScriptHash(inner) => ScriptPubkeyContainerView::ScriptHash(
                inner@,
            ),
            ScriptPubkeyContainer::WitnessScriptHash(
                inner,
            ) => ScriptPubkeyContainerView::WitnessScriptHash(inner@),
            ScriptPubkeyContainer::BareScript(inner) => ScriptPubkeyContainerView::BareScript(
                inner@,
            ),
            ScriptPubkeyContainer::Unsupported(script) => ScriptPubkeyContainerView::Unsupported(
                script@,
            ),
        }
    }
}

/// The container for an output script that is made of the key `pubkey`:
/// the script routes by its template, and a script of a template that
/// holds no key is unsupported.
pub open spec fn key_container(script_pubkey: Seq<u8>, pubkey: Seq<u8>)
    -> ScriptPubkeyContainerView {
    match template_of(script_pubkey) {
        ScriptTemplate::BareKey => ScriptPubkeyContainerView::BareKey(pubkey),
        ScriptTemplate::KeyHash => ScriptPubkeyContainerView::KeyHash(pubkey),
        ScriptTemplate::WitnessKeyHash => ScriptPubkeyContainerView::WitnessKeyHash(pubkey),
        _ => ScriptPubkeyContainerView::Unsupported(script_pubkey),
    }
}

/// The container for an output script that is made of the lock script of
/// `inner`: the script routes by its template, one of no other template is
/// taken for the lock script itself, and one of a template that holds a key
/// is unsupported.
pub open spec fn script_container(script_pubkey: Seq<u8>, inner: LockscriptContainerView)
    -> ScriptPubkeyContainerView {
    match template_of(script_pubkey) {
        ScriptTemplate::ScriptHash => ScriptPubkeyContainerView::ScriptHash(inner),
        ScriptTemplate::WitnessScriptHash => ScriptPubkeyContainerView::WitnessScriptHash(inner),
        ScriptTemplate::Other => ScriptPubkeyContainerView::BareScript(inner),
        _ => ScriptPubkeyContainerView::Unsupported(script_pubkey),
    }
}

impl ScriptPubkeyContainer {
    /// Classifies `script_pubkey` and makes the container that routes a
    /// commitment into the key it is made of.
    pub fn for_key(script_pubkey: &[u8], pubkey: PublicKey) -> (container: ScriptPubkeyContainer)
        ensures
            container@ == key_container(script_pubkey@, pubkey@),
    {
        match classify(script_pubkey) {
            ScriptTemplate::BareKey => ScriptPubkeyContainer::BareKey(pubkey),
            ScriptTemplate::KeyHash => ScriptPubkeyContainer::KeyHash(pubkey),
            ScriptTemplate::WitnessKeyHash => ScriptPubkeyContainer::WitnessKeyHash(pubkey),
            _ => ScriptPubkeyContainer::Unsupported(copy_bytes(script_pubkey)),
        }
    }

    /// Classifies `script_pubkey` and makes the container that routes a
    /// commitment into the lock script it is made of.
    pub fn for_script(script_pubkey: &[u8], inner: LockscriptContainer) -> (container:
        ScriptPubkeyContainer)
        ensures
            container@ == script_container(script_pubkey@, inner@),
    {
        match classify(script_pubkey) {
            ScriptTemplate::ScriptHash => ScriptPubkeyContainer::ScriptHash(inner),
            ScriptTemplate::WitnessScriptHash => ScriptPubkeyContainer::WitnessScriptHash(inner),
            ScriptTemplate::Other => ScriptPubkeyContainer::BareScript(inner),
            _ => ScriptPubkeyContainer::Unsupported(copy_bytes(script_pubkey)),
        }
    }

    /// A copy of the container.
    pub fn duplicate(&self) -> (copy: ScriptPubkeyContainer)
        ensures
            copy@ == self@,
    {
        match self {
            ScriptPubkeyContainer::BareKey(key) => ScriptPubkeyContainer::BareKey(*key),
            ScriptPubkeyContainer::KeyHash(key) => ScriptPubkeyContainer::KeyHash(*key),
            ScriptPubkeyContainer::WitnessKeyHash(key) => ScriptPubkeyContainer::WitnessKeyHash(
                *key,
            ),
            ScriptPubkeyContainer::ScriptHash(inner) => ScriptPubkeyContainer::ScriptHash(
                inner.duplicate(),
            ),
            ScriptPubkeyContainer::WitnessScriptHash(
                inner,
            ) => ScriptPubkeyContainer::WitnessScriptHash(inner.duplicate()),
            ScriptPubkeyContainer::BareScript(inner) => ScriptPubkeyContainer::BareScript(
                inner.duplicate(),
            ),
            ScriptPubkeyContainer::Unsupported(script) => ScriptPubkeyContainer::Unsupported(
                copy_bytes(script.as_slice()),
            ),
        }
    }

    /// Whether this container and `other` hold the same.
    pub fn equals(&self, other: &ScriptPubkeyContainer) -> (same: bool)
        ensures
            same == (self@ == other@),
    {
        match (self, other) {
            (ScriptPubkeyContainer::BareKey(a), ScriptPubkeyContainer::BareKey(b)) => a.equals(b),
            (ScriptPubkeyContainer::KeyHash(a), ScriptPubkeyContainer::KeyHash(b)) => a.equals(b),
            (
                ScriptPubkeyContainer::WitnessKeyHash(a),
                ScriptPubkeyContainer::WitnessKeyHash(b),
            ) => a.equals(b),
            (ScriptPubkeyContainer::ScriptHash(a), ScriptPubkeyContainer::ScriptHash(b)) => {
                a.equals(b)
            },
            (
                ScriptPubkeyContainer::WitnessScriptHash(a),
                ScriptPubkeyContainer::WitnessScriptHash(b),
            ) => a.equals(b),
            (ScriptPubkeyContainer::BareScript(a), ScriptPubkeyContainer::BareScript(b)) => {
                a.equals(b)
            },
            (ScriptPubkeyContainer::Unsupported(a), ScriptPubkeyContainer::Unsupported(b)) => {
                bytes_equal(a.as_slice(), b.as_slice())
            },
            _ => false,
        }
    }
}

/// What a [`ScriptPubkeyCommitment`] holds.
pub struct ScriptPubkeyCommitmentView {
    /// The container that the commitment was made from.
    pub container: ScriptPubkeyContainerView,
    /// The bytes of the output script that commits to the message.
    pub script_pubkey: Seq<u8>,
}

/// An output script that commits to a message, with the container it was
/// made from.
#[derive(Clone, Debug, PartialEq, Eq)]
pub struct ScriptPubkeyCommitment {
    /// The container that the commitment was made from.
    pub container: ScriptPubkeyContainer,
    /// The output script that commits to the message.
    pub script_pubkey: Vec<u8>,
}

/// The view of a [`ScriptPubkeyCommitment`] holds the bytes of its parts.
impl View for ScriptPubkeyCommitment {
    type V = ScriptPubkeyCommitmentView;

    open spec fn view(&self) -> ScriptPubkeyCommitmentView {
        ScriptPubkeyCommitmentView {
            container: self.container@,
            script_pubkey: self.script_pubkey@,
        }
    }
}

/// The output script written around the key that commits to `msg` on top
/// of `key`, by the template-specific `frame`.
pub open spec fn key_output(key: Seq<u8>, msg: Seq<u8>, frame: spec_fn(Seq<u8>) -> Seq<u8>)
    -> Result<Seq<u8>, Error> {
    match tweaked_key(key, msg) {
        Some(tweaked) => Ok(frame(tweaked)),
        None => Err(Error::InvalidTweak),
    }
}

/// The output script written around the lock script that commits to `msg`,
/// by the template-specific `frame`.
pub open spec fn script_output(
    inner: LockscriptContainerView,
    msg: Seq<u8>,
    frame: spec_fn(Seq<u8>) -> Seq<u8>,
) -> Result<Seq<u8>, Error> {
    match lockscript_embedding(inner, msg) {
        Ok(commitment) => Ok(frame(commitment.script)),
        Err(error) => Err(error),
    }
}

/// The output script that commits to `msg` for each kind of container; an
/// unsupported script is refused whatever it holds.
pub open spec fn committed_script(container: ScriptPubkeyContainerView, msg: Seq<u8>) -> Result<
    Seq<u8>,
    Error,
> {
    match container {
        ScriptPubkeyContainerView::BareKey(key) => key_output(
            key,
            msg,
            |tweaked: Seq<u8>| bare_key_script(tweaked),
        ),
        ScriptPubkeyContainerView::KeyHash(key) => key_output(
            key,
            msg,
            |tweaked: Seq<u8>| key_hash_script(hash160(tweaked)),
        ),
        ScriptPubkeyContainerView::WitnessKeyHash(key) => key_output(
            key,
            msg,
            |tweaked: Seq<u8>| witness_key_hash_script(hash160(tweaked)),
        ),
        ScriptPubkeyContainerView::ScriptHash(inner) => script_output(
            inner,
            msg,
            |script: Seq<u8>| script_hash_script(hash160(script)),
        ),
        ScriptPubkeyContainerView::WitnessScriptHash(inner) => script_output(
            inner,
            msg,
            |script: Seq<u8>| witness_script_hash_script(sha256(script)),
        ),
        ScriptPubkeyContainerView::BareScript(inner) => script_output(
            inner,
            msg,
            |script: Seq<u8>| script,
        ),
        ScriptPubkeyContainerView::Unsupported(_) => Err(Error::UnsupportedOutputType),
    }
}

/// The outcome of embedding a commitment to `msg` into an output script.
pub open spec fn scriptpubkey_embedding(container: ScriptPubkeyContainerView, msg: Seq<u8>)
    -> Result<ScriptPubkeyCommitmentView, Error> {
    match committed_script(container, msg) {
        Ok(script_pubkey) => Ok(ScriptPubkeyCommitmentView { container, script_pubkey }),
        Err(error) => Err(error),
    }
}

/// The compressed key that commits to `msg` on top of `key`.
fn tweak(key: PublicKey, msg: &Vec<u8>) -> (made: Result<[u8; 33], Error>)
    ensures
        match made {
            Ok(tweaked) => tweaked_key(key@, msg@) == Some(tweaked@),
            Err(error) => tweaked_key(key@, msg@) is None && error == Error::InvalidTweak,
        },
{
    match PubkeyCommitment::commit_to(key, msg) {
        Ok(commitment) => Ok(commitment.tweaked.serialize()),
        Err(error) => Err(error),
    }
}

/// The bytes of the lock script that commits to `msg`.
fn rewrite(inner: LockscriptContainer, msg: &Vec<u8>) -> (made: Result<Vec<u8>, Error>)
    ensures
        match made {
            Ok(script) => lockscript_embedding(inner@, msg@) matches Ok(commitment)
                && commitment.script == script@,
            Err(error) => lockscript_embedding(inner@, msg@) == Err::<
                super::lockscript::LockscriptCommitmentView,
                Error,
            >(error),
        },
{
    match LockscriptCommitment::commit_to(inner, msg) {
        Ok(commitment) => Ok(commitment.script.into_bytes()),
        Err(error) => Err(error),
    }
}

/// Writes the output script that commits to `msg` for `container`.
fn commit_script(container: &ScriptPubkeyContainer, msg: &Vec<u8>) -> (made: Result<
    Vec<u8>,
    Error,
>)
    ensures
        match made {
            Ok(script) => committed_script(container@, msg@) == Ok::<Seq<u8>, Error>(script@),
            Err(error) => committed_script(container@, msg@) == Err::<Seq<u8>, Error>(error),
        },
{
    match container {
        ScriptPubkeyContainer::BareKey(key) => {
            match tweak(*key, msg) {
                Ok(tweaked) => Ok(write_bare_key_script(&tweaked)),
                Err(error) => Err(error),
            }
        },
        ScriptPubkeyContainer::KeyHash(key) => {
            match tweak(*key, msg) {
                Ok(tweaked) => Ok(write_key_hash_script(&hash160_digest(&tweaked))),
                Err(error) => Err(error),
            }
        },
        ScriptPubkeyContainer::WitnessKeyHash(key) => {
            match tweak(*key, msg) {
                Ok(tweaked) => Ok(write_witness_key_hash_script(&hash160_digest(&tweaked))),
                Err(error) => Err(error),
            }
        },
        ScriptPubkeyContainer::ScriptHash(inner) => {
            match rewrite(inner.duplicate(), msg) {
                Ok(script) => Ok(write_script_hash_script(&hash160_digest(script.as_slice()))),
                Err(error) => Err(error),
            }
        },
        ScriptPubkeyContainer::WitnessScriptHash(inner) => {
            match rewrite(inner.duplicate(), msg) {
                Ok(script) => Ok(
                    write_witness_script_hash_script(&sha256_digest(script.as_slice())),
                ),
                Err(error) => Err(error),
            }
        },
        ScriptPubkeyContainer::BareScript(inner) => rewrite(inner.duplicate(), msg),
        ScriptPubkeyContainer::Unsupported(_) => Err(Error::UnsupportedOutputType),
    }
}

/// A commitment embedded into an output script, for messages given as bytes.
impl EmbeddedCommitment<Vec<u8>> for ScriptPubkeyCommitment {
    type Container = ScriptPubkeyContainer;

    type Error = Error;

    open spec fn original_container(commitment: ScriptPubkeyCommitmentView)
        -> ScriptPubkeyContainerView {
        commitment.container
    }

    open spec fn embedding(container: ScriptPubkeyContainerView, msg: &Vec<u8>) -> Result<
        ScriptPubkeyCommitmentView,
        Error,
    > {
        scriptpubkey_embedding(container, msg@)
    }

    proof fn embedding_keeps_container(container: ScriptPubkeyContainerView, msg: &Vec<u8>) {
    }

    fn equals(&self, other: &Self) -> (same: bool) {
        self.container.equals(&other.container) && bytes_equal(
            self.script_pubkey.as_slice(),
            other.script_pubkey.as_slice(),
        )
    }

    fn get_original_container(&self) -> (container: ScriptPubkeyContainer) {
        self.container.duplicate()
    }

    /// Routes the commitment by the template of the container: to the key
    /// tweak for a key, to the lock-script rewrite for a script, and writes
    /// the template around the outcome. Fails with the error of the part it
    /// routed to, and with [`Error::UnsupportedOutputType`] for a script of
    /// no supported template.
    fn commit_to(container: ScriptPubkeyContainer, msg: &Vec<u8>) -> (made: Result<Self, Error>) {
        match commit_script(&container, msg) {
            Ok(script_pubkey) => Ok(ScriptPubkeyCommitment { container, script_pubkey }),
            Err(error) => Err(error),
        }
    }
}

/// The commitment verifies the messages whose embedding into its container
/// gives the commitment.
impl CommitmentVerify<Vec<u8>> for ScriptPubkeyCommitment {
    open spec fn verifies(&self, msg: &Vec<u8>) -> bool {
        committed_script(self.container@, msg@) == Ok::<Seq<u8>, Error>(self.script_pubkey@)
    }

    fn reveal_verify(&self, msg: &Vec<u8>) -> (ok: bool) {
        <Self as EmbeddedCommitment<Vec<u8>>>::reveal_verify(self, msg)
    }
}

/// A message given as bytes can be checked against a [`ScriptPubkeyCommitment`].
impl Verifiable<ScriptPubkeyCommitment> for Vec<u8> {
}

/// A message given as bytes can be embedded as a [`ScriptPubkeyCommitment`].
impl EmbedCommittable<ScriptPubkeyCommitment> for Vec<u8> {
}

/// No output script routes two ways: the script written for a key template
/// is classified as that template again, whatever key or hash it is
/// written around.
pub proof fn key_templates_are_told_apart(key: Seq<u8>, hash: Seq<u8>)
    requires
        key.len() == 33,
        hash.len() == 20,
    ensures
        template_of(bare_key_script(key)) == ScriptTemplate::BareKey,
        template_of(key_hash_script(hash)) == ScriptTemplate::KeyHash,
        template_of(witness_key_hash_script(hash)) == ScriptTemplate::WitnessKeyHash,
{
}

/// The script written for a script-hash template is classified as that
/// template again, whatever hash it is written around.
pub proof fn script_templates_are_told_apart(hash: Seq<u8>, witness_hash: Seq<u8>)
    requires
        hash.len() == 20,
        witness_hash.len() == 32,
    ensures
        template_of(script_hash_script(hash)) == ScriptTemplate::ScriptHash,
        template_of(witness_script_hash_script(witness_hash)) == ScriptTemplate::WitnessScriptHash,
{
}

} // verus!
