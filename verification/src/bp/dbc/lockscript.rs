//! Embedding a commitment into a lock script.
//!
//! One key of the script is designated. The commitment tweaks that key and
//! rewrites the script so that every leaf holding the key, or the hash of
//! the key, holds the tweaked key, or its hash, instead. The whole tree is
//! visited: a key that stands in several branches is replaced in each.

use super::pubkey::{tweaked_key, PubkeyCommitment};
use super::Error;
use crate::bp::digests::{hash160, hash160_digest};
use crate::bp::keys::{is_compressed_point, PublicKey};
use crate::common::bytes::bytes_equal;
use crate::bp::scripts::{
    fits, item_is_sound, item_views, read_key_items, script_key_items, script_with_key_items,
    write_key_items, KeyItem, LockScript, ScriptItem,
};
use crate::primitives::commit_verify::{
    CommitmentVerify, EmbedCommittable, EmbeddedCommitment, Verifiable,
};
use vstd::prelude::*;

verus! {

/// What is looked for in a script and what takes its place.
pub struct Substitution {
    /// The designated key.
    pub key: Seq<u8>,
    /// The hash of the designated key.
    pub key_hash: Seq<u8>,
    /// The key that replaces the designated key.
    pub new_key: Seq<u8>,
    /// The hash that replaces the hash of the designated key.
    pub new_key_hash: Seq<u8>,
}

/// Whether `item` is the designated key or its hash.
pub open spec fn is_target(item: ScriptItem, sub: Substitution) -> bool {
    match item {
        ScriptItem::Key(key) => key == sub.key,
        ScriptItem::KeyHash(hash) => hash == sub.key_hash,
    }
}

/// What stands at a leaf after the rewrite: the replacement where the leaf
/// held the target, the leaf itself otherwise.
pub open spec fn rewritten_item(item: ScriptItem, sub: Substitution) -> ScriptItem {
    match item {
        ScriptItem::Key(key) => ScriptItem::Key(
            if key == sub.key {
                sub.new_key
            } else {
                key
            },
        ),
        ScriptItem::KeyHash(hash) => ScriptItem::KeyHash(
            if hash == sub.key_hash {
                sub.new_key_hash
            } else {
                hash
            },
        ),
    }
}

/// The row of leaves after the rewrite.
pub open spec fn rewritten_items(items: Seq<ScriptItem>, sub: Substitution) -> Seq<ScriptItem> {
    items.map_values(|item: ScriptItem| rewritten_item(item, sub))
}

/// How many of `items` satisfy `wanted`.
pub open spec fn count(items: Seq<ScriptItem>, wanted: spec_fn(ScriptItem) -> bool) -> nat
    decreases items.len(),
{
    if items.len() == 0 {
        0
    } else {
        count(items.drop_last(), wanted) + if wanted(items.last()) {
            1nat
        } else {
            0nat
        }
    }
}

/// How many leaves hold a key.
pub open spec fn keys_seen(items: Seq<ScriptItem>) -> nat {
    count(items, |item: ScriptItem| item is Key)
}

/// How many leaves hold a key hash.
pub open spec fn hashes_seen(items: Seq<ScriptItem>) -> nat {
    count(items, |item: ScriptItem| item is KeyHash)
}

/// How many leaves hold the designated key or its hash.
pub open spec fn found(items: Seq<ScriptItem>, sub: Substitution) -> nat {
    count(items, |item: ScriptItem| is_target(item, sub))
}

/// What a visit of the whole tree has counted.
#[derive(Clone, Copy, Debug, PartialEq, Eq, Structural)]
pub struct Tally {
    /// Leaves that held the designated key or its hash.
    pub found: usize,
    /// Leaves that held a key.
    pub keys_seen: usize,
    /// Leaves that held a key hash.
    pub hashes_seen: usize,
}

/// The error that the counts of a visit call for, if any: nothing to commit
/// into, only foreign hashes, or keys none of which is the designated one.
pub open spec fn verdict(found: nat, keys_seen: nat, hashes_seen: nat) -> Option<Error> {
    if found > 0 {
        None
    } else if keys_seen > 0 {
        Some(Error::LockscriptKeyNotFound)
    } else if hashes_seen > 0 {
        Some(Error::LockscriptContainsUnknownHashesOnly)
    } else {
        Some(Error::LockscriptContainsNoKeysOrHashes)
    }
}

impl Tally {
    /// Decides from the counts whether the rewrite committed to anything.
    pub fn verdict(&self) -> (error: Option<Error>)
        ensures
            error == verdict(self.found as nat, self.keys_seen as nat, self.hashes_seen as nat),
    {
        if self.found > 0 {
            None
        } else if self.keys_seen > 0 {
            Some(Error::LockscriptKeyNotFound)
        } else if self.hashes_seen > 0 {
            Some(Error::LockscriptContainsUnknownHashesOnly)
        } else {
            Some(Error::LockscriptContainsNoKeysOrHashes)
        }
    }
}

/// The substitution that the given exec values stand for.
pub open spec fn substitution(
    key: &[u8; 33],
    key_hash: &[u8; 20],
    new_key: &[u8; 33],
    new_key_hash: &[u8; 20],
) -> Substitution {
    Substitution { key: key@, key_hash: key_hash@, new_key: new_key@, new_key_hash: new_key_hash@ }
}

/// No more leaves are counted than there are.
proof fn lemma_count_bounded(items: Seq<ScriptItem>, wanted: spec_fn(ScriptItem) -> bool)
    ensures
        count(items, wanted) <= items.len(),
    decreases items.len(),
{
    if items.len() > 0 {
        lemma_count_bounded(items.drop_last(), wanted);
    }
}

/// Counting one leaf further adds one exactly where that leaf is wanted.
proof fn lemma_count_step(items: Seq<ScriptItem>, i: int, wanted: spec_fn(ScriptItem) -> bool)
    requires
        0 <= i < items.len(),
    ensures
        count(items.take(i + 1), wanted) == count(items.take(i), wanted) + if wanted(items[i]) {
            1nat
        } else {
            0nat
        },
{
    assert(items.take(i + 1).drop_last() =~= items.take(i));
    assert(items.take(i + 1).last() == items[i]);
}

/// Visits every leaf of a row: replaces the designated key by `new_key`
/// and its hash by `new_key_hash`, leaves every other leaf as it is, and
/// counts the keys, the key hashes and the replacements.
pub fn rewrite_items(
    items: &Vec<KeyItem>,
    key: &[u8; 33],
    key_hash: &[u8; 20],
    new_key: &[u8; 33],
    new_key_hash: &[u8; 20],
) -> (out: (Vec<KeyItem>, Tally))
    ensures
        item_views(out.0@) == rewritten_items(
            item_views(items@),
            substitution(key, key_hash, new_key, new_key_hash),
        ),
        out.1.found == found(
            item_views(items@),
            substitution(key, key_hash, new_key, new_key_hash),
        ),
        out.1.keys_seen == keys_seen(item_views(items@)),
        out.1.hashes_seen == hashes_seen(item_views(items@)),
{
    let ghost sub = substitution(key, key_hash, new_key, new_key_hash);
    let ghost all = item_views(items@);
    let ghost is_key = |item: ScriptItem| item is Key;
    let ghost is_hash = |item: ScriptItem| item is KeyHash;
    let ghost is_hit = |item: ScriptItem| is_target(item, sub);
    let mut rewritten: Vec<KeyItem> = Vec::new();
    let mut tally = Tally { found: 0, keys_seen: 0, hashes_seen: 0 };
    let mut i: usize = 0;
    while i < items.len()
        invariant
            i <= items.len(),
            all == item_views(items@),
            all.len() == items.len(),
            sub == substitution(key, key_hash, new_key, new_key_hash),
            is_key == (|item: ScriptItem| item is Key),
            is_hash == (|item: ScriptItem| item is KeyHash),
            is_hit == (|item: ScriptItem| is_target(item, sub)),
            rewritten.len() == i,
            forall|j: int| 0 <= j < i ==> (#[trigger] rewritten[j])@ == rewritten_item(all[j], sub),
            tally.found == count(all.take(i as int), is_hit),
            tally.keys_seen == count(all.take(i as int), is_key),
            tally.hashes_seen == count(all.take(i as int), is_hash),
        decreases items.len() - i,
    {
        proof {
            lemma_count_step(all, i as int, is_hit);
            lemma_count_step(all, i as int, is_key);
            lemma_count_step(all, i as int, is_hash);
            lemma_count_bounded(all.take(i + 1), is_hit);
            lemma_count_bounded(all.take(i + 1), is_key);
            lemma_count_bounded(all.take(i + 1), is_hash);
            assert(all[i as int] == items[i as int]@);
        }
        match items[i] {
            KeyItem::Key(found_key) => {
                tally.keys_seen = tally.keys_seen + 1;
                if bytes_equal(&found_key, key) {
                    tally.found = tally.found + 1;
                    rewritten.push(KeyItem::Key(*new_key));
                } else {
                    rewritten.push(KeyItem::Key(found_key));
                }
            },
            KeyItem::KeyHash(found_hash) => {
                tally.hashes_seen = tally.hashes_seen + 1;
                if bytes_equal(&found_hash, key_hash) {
                    tally.found = tally.found + 1;
                    rewritten.push(KeyItem::KeyHash(*new_key_hash));
                } else {
                    rewritten.push(KeyItem::KeyHash(found_hash));
                }
            },
        }
        i += 1;
    }
    proof {
        assert(all.take(i as int) =~= all);
        assert(item_views(rewritten@) =~= rewritten_items(all, sub));
    }
    (rewritten, tally)
}

/// What a [`LockscriptContainer`] holds.
pub struct LockscriptContainerView {
    /// The bytes of the script before the commitment.
    pub script: Seq<u8>,
    /// The designated key, compressed.
    pub pubkey: Seq<u8>,
}

/// A lock script and the key in it that a commitment is to tweak.
#[derive(Clone, Debug, PartialEq, Eq)]
pub struct LockscriptContainer {
    /// The script before the commitment.
    pub script: LockScript,
    /// The designated key.
    pub pubkey: PublicKey,
}

/// The view of a [`LockscriptContainer`] holds the bytes of its parts.
impl View for LockscriptContainer {
    type V = LockscriptContainerView;

    open spec fn view(&self) -> LockscriptContainerView {
        LockscriptContainerView { script: self.script@, pubkey: self.pubkey@ }
    }
}

/// What a [`LockscriptCommitment`] holds.
pub struct LockscriptCommitmentView {
    /// The container that the commitment was made from.
    pub container: LockscriptContainerView,
    /// The bytes of the rewritten script.
    pub script: Seq<u8>,
}

/// A lock script whose designated key commits to a message, with the
/// container it was made from.
#[derive(Clone, Debug, PartialEq, Eq)]
pub struct LockscriptCommitment {
    /// The container that the commitment was made from.
    pub container: LockscriptContainer,
    /// The rewritten script.
    pub script: LockScript,
}

/// The view of a [`LockscriptCommitment`] holds the bytes of its parts.
impl View for LockscriptCommitment {
    type V = LockscriptCommitmentView;

    open spec fn view(&self) -> LockscriptCommitmentView {
        LockscriptCommitmentView { container: self.container@, script: self.script@ }
    }
}

/// The substitution that commits to a message on the key `pubkey`, given
/// the tweaked key.
pub open spec fn tweak_substitution(pubkey: Seq<u8>, tweaked: Seq<u8>) -> Substitution {
    Substitution {
        key: pubkey,
        key_hash: hash160(pubkey),
        new_key: tweaked,
        new_key_hash: hash160(tweaked),
    }
}

/// The outcome of rewriting `script`, whose leaves are `items`, under `sub`:
/// the error that the counts call for, or the bytes of the rewritten script.
pub open spec fn rewrite_outcome(script: Seq<u8>, items: Seq<ScriptItem>, sub: Substitution)
    -> Result<Seq<u8>, Error> {
    match verdict(found(items, sub), keys_seen(items), hashes_seen(items)) {
        Some(error) => Err(error),
        None => Ok(script_with_key_items(script, rewritten_items(items, sub))),
    }
}

/// The outcome of embedding a commitment to `msg` into a lock script: the
/// tweak is made first, then the script is parsed, then its leaves are
/// rewritten and counted.
pub open spec fn lockscript_embedding(container: LockscriptContainerView, msg: Seq<u8>) -> Result<
    LockscriptCommitmentView,
    Error,
> {
    match tweaked_key(container.pubkey, msg) {
        None => Err(Error::InvalidTweak),
        Some(tweaked) => match script_key_items(container.script) {
            None => Err(Error::LockscriptParseError),
            Some(items) => match rewrite_outcome(
                container.script,
                items,
                tweak_substitution(container.pubkey, tweaked),
            ) {
                Err(error) => Err(error),
                Ok(script) => Ok(LockscriptCommitmentView { container, script }),
            },
        },
    }
}

/// The rewritten row can take the place of the row it was made from.
proof fn lemma_rewritten_fits(items: Seq<ScriptItem>, sub: Substitution)
    requires
        forall|i: int| 0 <= i < items.len() ==> item_is_sound(#[trigger] items[i]),
        is_compressed_point(sub.new_key),
        sub.new_key_hash.len() == 20,
    ensures
        fits(items, rewritten_items(items, sub)),
{
    let out = rewritten_items(items, sub);
    assert forall|i: int| 0 <= i < out.len() implies crate::bp::scripts::same_kind(
        items[i],
        #[trigger] out[i],
    ) && item_is_sound(out[i]) by {
        assert(item_is_sound(items[i]));
        assert(out[i] == rewritten_item(items[i], sub));
    }
}

impl LockscriptContainer {
    /// A copy of the container.
    pub fn duplicate(&self) -> (copy: LockscriptContainer)
        ensures
            copy@ == self@,
    {
        LockscriptContainer { script: self.script.duplicate(), pubkey: self.pubkey }
    }

    /// Whether this container and `other` hold the same.
    pub fn equals(&self, other: &LockscriptContainer) -> (same: bool)
        ensures
            same == (self@ == other@),
    {
        self.script.equals(&other.script) && self.pubkey.equals(&other.pubkey)
    }
}

/// A commitment embedded into a lock script, for messages given as bytes.
impl EmbeddedCommitment<Vec<u8>> for LockscriptCommitment {
    type Container = LockscriptContainer;

    type Error = Error;

    open spec fn original_container(commitment: LockscriptCommitmentView)
        -> LockscriptContainerView {
        commitment.container
    }

    open spec fn embedding(container: LockscriptContainerView, msg: &Vec<u8>) -> Result<
        LockscriptCommitmentView,
        Error,
    > {
        lockscript_embedding(container, msg@)
    }

    proof fn embedding_keeps_container(container: LockscriptContainerView, msg: &Vec<u8>) {
    }

    fn equals(&self, other: &Self) -> (same: bool) {
        self.container.equals(&other.container) && self.script.equals(&other.script)
    }

    fn get_original_container(&self) -> (container: LockscriptContainer) {
        self.container.duplicate()
    }

    fn commit_to(container: LockscriptContainer, msg: &Vec<u8>) -> (made: Result<Self, Error>) {
        LockscriptCommitment::commit_embed(container, msg)
    }
}

impl LockscriptCommitment {
    /// Tweaks the designated key, parses the script, and replaces the key
    /// and its hash at every leaf that holds them. Fails where the tweak is
    /// invalid, where the script does not parse, and where no leaf held the
    /// key or its hash: with a different error for a script without keys
    /// and hashes, for one with foreign hashes only, and for one with keys
    /// none of which is the designated one.
    pub fn commit_embed(container: LockscriptContainer, msg: &Vec<u8>) -> (made: Result<
        Self,
        Error,
    >)
        ensures
            match made {
                Ok(commitment) => lockscript_embedding(container@, msg@) == Ok::<
                    LockscriptCommitmentView,
                    Error,
                >(commitment@),
                Err(error) => lockscript_embedding(container@, msg@) == Err::<
                    LockscriptCommitmentView,
                    Error,
                >(error),
            },
    {
        let key = container.pubkey.serialize();
        let key_hash = hash160_digest(&key);
        let tweaked = match PubkeyCommitment::commit_to(container.pubkey, msg) {
            Ok(commitment) => commitment.tweaked.serialize(),
            Err(error) => {
                return Err(error);
            },
        };
        let tweaked_hash = hash160_digest(&tweaked);
        let items = match read_key_items(container.script.as_bytes()) {
            Some(items) => items,
            None => {
                return Err(Error::LockscriptParseError);
            },
        };
        let (rewritten, tally) = rewrite_items(&items, &key, &key_hash, &tweaked, &tweaked_hash);
        match tally.verdict() {
            Some(error) => Err(error),
            None => {
                proof {
                    lemma_rewritten_fits(
                        item_views(items@),
                        tweak_substitution(key@, tweaked@),
                    );
                }
                let bytes = write_key_items(container.script.as_bytes(), &rewritten);
                Ok(LockscriptCommitment { container, script: LockScript::from_bytes(bytes) })
            },
        }
    }
}

/// The commitment verifies the messages whose embedding into its container
/// gives the commitment.
impl CommitmentVerify<Vec<u8>> for LockscriptCommitment {
    open spec fn verifies(&self, msg: &Vec<u8>) -> bool {
        lockscript_embedding(self.container@, msg@) == Ok::<LockscriptCommitmentView, Error>(
            self@,
        )
    }

    fn reveal_verify(&self, msg: &Vec<u8>) -> (ok: bool) {
        <Self as EmbeddedCommitment<Vec<u8>>>::reveal_verify(self, msg)
    }
}

/// A message given as bytes can be checked against a [`LockscriptCommitment`].
impl Verifiable<LockscriptCommitment> for Vec<u8> {
}

/// A message given as bytes can be embedded as a [`LockscriptCommitment`].
impl EmbedCommittable<LockscriptCommitment> for Vec<u8> {
}

/// Nothing is counted exactly where no leaf is wanted.
pub proof fn lemma_count_is_zero(items: Seq<ScriptItem>, wanted: spec_fn(ScriptItem) -> bool)
    ensures
        count(items, wanted) == 0 <==> forall|i: int| 0 <= i < items.len() ==> !wanted(items[i]),
    decreases items.len(),
{
    if items.len() > 0 {
        let front = items.drop_last();
        lemma_count_is_zero(front, wanted);
        if count(items, wanted) == 0 {
            assert forall|i: int| 0 <= i < items.len() implies !wanted(items[i]) by {
                if i < front.len() {
                    assert(front[i] == items[i]);
                }
            }
        } else if forall|i: int| 0 <= i < items.len() ==> !wanted(items[i]) {
            assert(!wanted(items.last()));
            assert forall|i: int| 0 <= i < front.len() implies !wanted(front[i]) by {
                assert(front[i] == items[i]);
            }
        }
    }
}

/// A script without keys and key hashes, such as one made of timelocks and
/// hash locks only, has nothing to commit into.
pub proof fn script_without_keys_and_hashes(script: Seq<u8>, sub: Substitution)
    ensures
        rewrite_outcome(script, Seq::empty(), sub) == Err::<Seq<u8>, Error>(
            Error::LockscriptContainsNoKeysOrHashes,
        ),
{
}

/// A script whose leaves are key hashes, none of them the hash of the
/// designated key, holds unknown hashes only.
pub proof fn script_with_foreign_hashes_only(
    script: Seq<u8>,
    items: Seq<ScriptItem>,
    sub: Substitution,
)
    requires
        items.len() > 0,
        forall|i: int| 0 <= i < items.len() ==> items[i] is KeyHash && !is_target(items[i], sub),
    ensures
        rewrite_outcome(script, items, sub) == Err::<Seq<u8>, Error>(
            Error::LockscriptContainsUnknownHashesOnly,
        ),
{
    lemma_count_is_zero(items, |item: ScriptItem| is_target(item, sub));
    lemma_count_is_zero(items, |item: ScriptItem| item is Key);
    lemma_count_is_zero(items, |item: ScriptItem| item is KeyHash);
    assert(items[0] is KeyHash);
}

/// A script that holds a key, while none of its leaves holds the
/// designated key or its hash, does not hold the key that is looked for.
pub proof fn script_with_foreign_keys(
    script: Seq<u8>,
    items: Seq<ScriptItem>,
    sub: Substitution,
    at: int,
)
    requires
        0 <= at < items.len(),
        items[at] is Key,
        forall|i: int| 0 <= i < items.len() ==> !is_target(items[i], sub),
    ensures
        rewrite_outcome(script, items, sub) == Err::<Seq<u8>, Error>(Error::LockscriptKeyNotFound),
{
    lemma_count_is_zero(items, |item: ScriptItem| is_target(item, sub));
    lemma_count_is_zero(items, |item: ScriptItem| item is Key);
}

/// A script with a leaf that holds the designated key or its hash takes
/// the commitment: every such leaf holds the replacement afterwards, and
/// every other leaf holds what it held before.
pub proof fn script_with_designated_key(
    script: Seq<u8>,
    items: Seq<ScriptItem>,
    sub: Substitution,
    at: int,
)
    requires
        0 <= at < items.len(),
        is_target(items[at], sub),
    ensures
        found(items, sub) > 0,
        rewrite_outcome(script, items, sub) == Ok::<Seq<u8>, Error>(
            script_with_key_items(script, rewritten_items(items, sub)),
        ),
        rewritten_items(items, sub).len() == items.len(),
        forall|i: int|
            0 <= i < items.len() ==> #[trigger] rewritten_items(items, sub)[i] == (if is_target(
                items[i],
                sub,
            ) {
                match items[i] {
                    ScriptItem::Key(_) => ScriptItem::Key(sub.new_key),
                    ScriptItem::KeyHash(_) => ScriptItem::KeyHash(sub.new_key_hash),
                }
            } else {
                items[i]
            }),
{
    lemma_count_is_zero(items, |item: ScriptItem| is_target(item, sub));
}

/// Keys are matched as points: whatever encodings two keys were read from,
/// if they encode the same point they match the designated key alike.
pub proof fn encodings_of_one_point_match_alike(
    first: Seq<u8>,
    second: Seq<u8>,
    sub: Substitution,
)
    requires
        crate::bp::keys::secp256k1_point(first) is Some,
        crate::bp::keys::secp256k1_point(first) == crate::bp::keys::secp256k1_point(second),
    ensures
        is_target(ScriptItem::Key(crate::bp::keys::secp256k1_point(first)->Some_0), sub)
            == is_target(ScriptItem::Key(crate::bp::keys::secp256k1_point(second)->Some_0), sub),
{
}

} // verus!
