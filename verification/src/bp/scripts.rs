//! Lock scripts and the keys and key hashes that they hold.
//!
//! A lock script is a spending condition: a tree whose leaves are public
//! keys, hashes of public keys, timelocks and hash locks. The tree is read
//! and written by the Miniscript parser. This module sees a script as its
//! bytes together with the row of keys and key hashes found at the leaves
//! of its tree, in the order in which the parser visits them; every other
//! node stays as the parser found it.

use bitcoin::hashes::hash160;
use bitcoin::Script;
use core::cell::RefCell;
use miniscript::{Legacy, Miniscript};
use vstd::prelude::*;

verus! {

/// The bytes of a lock script.
#[derive(Clone, Debug, PartialEq, Eq)]
pub struct LockScript {
    bytes: Vec<u8>,
}

/// A lock script is viewed as its bytes.
impl View for LockScript {
    type V = Seq<u8>;

    closed spec fn view(&self) -> Seq<u8> {
        self.bytes@
    }
}

impl LockScript {
    /// The lock script with the given bytes.
    pub fn from_bytes(bytes: Vec<u8>) -> (script: LockScript)
        ensures
            script@ == bytes@,
    {
        LockScript { bytes }
    }

    /// The bytes of the script.
    pub fn as_bytes(&self) -> (bytes: &[u8])
        ensures
            bytes@ == self@,
    {
        self.bytes.as_slice()
    }

    /// The bytes of the script, given away.
    pub fn into_bytes(self) -> (bytes: Vec<u8>)
        ensures
            bytes@ == self@,
    {
        self.bytes
    }

    /// A copy of the script.
    pub fn duplicate(&self) -> (copy: LockScript)
        ensures
            copy@ == self@,
    {
        LockScript { bytes: crate::common::bytes::copy_bytes(self.bytes.as_slice()) }
    }

    /// Whether this script and `other` have the same bytes.
    pub fn equals(&self, other: &LockScript) -> (same: bool)
        ensures
            same == (self@ == other@),
    {
        crate::common::bytes::bytes_equal(self.bytes.as_slice(), other.bytes.as_slice())
    }
}

/// A key or a key hash at a leaf of a script tree, as plain bytes.
pub enum ScriptItem {
    /// A public key, in its compressed encoding.
    Key(Seq<u8>),
    /// The 20-byte hash of a public key.
    KeyHash(Seq<u8>),
}

/// A key or a key hash at a leaf of a script tree.
#[derive(Clone, Copy, Debug, PartialEq, Eq)]
pub enum KeyItem {
    /// A public key, in its compressed encoding.
    Key([u8; 33]),
    /// The 20-byte hash of a public key.
    KeyHash([u8; 20]),
}

/// An item is viewed with its bytes as a sequence.
impl View for KeyItem {
    type V = ScriptItem;

    open spec fn view(&self) -> ScriptItem {
        match self {
            KeyItem::Key(key) => ScriptItem::Key(key@),
            KeyItem::KeyHash(hash) => ScriptItem::KeyHash(hash@),
        }
    }
}

/// The views of a row of items.
pub open spec fn item_views(items: Seq<KeyItem>) -> Seq<ScriptItem> {
    items.map_values(|item: KeyItem| item@)
}

/// The keys and key hashes at the leaves of the tree that the parser reads
/// from `script`, in the order of its visit, each key in its compressed
/// encoding; `None` where the parser rejects the script.
pub uninterp spec fn script_key_items(script: Seq<u8>) -> Option<Seq<ScriptItem>>;

/// The bytes of the script whose tree is that of `script` with `items` at
/// its key and key-hash leaves, in the order of the parser's visit, every
/// key written compressed.
pub uninterp spec fn script_with_key_items(script: Seq<u8>, items: Seq<ScriptItem>) -> Seq<u8>;

/// Whether `item` is a key that encodes a point, or a key hash.
pub open spec fn item_is_sound(item: ScriptItem) -> bool {
    match item {
        ScriptItem::Key(key) => crate::bp::keys::is_compressed_point(key),
        ScriptItem::KeyHash(hash) => hash.len() == 20,
    }
}

/// Whether two items are of the same kind.
pub open spec fn same_kind(a: ScriptItem, b: ScriptItem) -> bool {
    (a is Key) == (b is Key)
}

/// Whether `items` can take the place of `old_items` leaf by leaf.
pub open spec fn fits(old_items: Seq<ScriptItem>, items: Seq<ScriptItem>) -> bool {
    &&& old_items.len() == items.len()
    &&& forall|i: int|
        0 <= i < items.len() ==> same_kind(old_items[i], #[trigger] items[i]) && item_is_sound(
            items[i],
        )
}

/// The row of items that is written down while a tree is walked.
pub struct ItemLog {
    items: Vec<KeyItem>,
}

impl ItemLog {
    /// What has been written down so far.
    pub closed spec fn items(&self) -> Seq<KeyItem> {
        self.items@
    }

    /// A log in which nothing is written down yet.
    pub fn new() -> (log: ItemLog)
        ensures
            log.items() == Seq::<KeyItem>::empty(),
    {
        ItemLog { items: Vec::new() }
    }

    /// Writes down a key.
    pub fn record_key(&mut self, key: [u8; 33])
        ensures
            final(self).items() == old(self).items().push(KeyItem::Key(key)),
    {
        self.items.push(KeyItem::Key(key));
    }

    /// Writes down a key hash.
    pub fn record_key_hash(&mut self, hash: [u8; 20])
        ensures
            final(self).items() == old(self).items().push(KeyItem::KeyHash(hash)),
    {
        self.items.push(KeyItem::KeyHash(hash));
    }

    /// The items that were written down, in their order.
    pub fn into_items(self) -> (items: Vec<KeyItem>)
        ensures
            items@ == self.items(),
    {
        self.items
    }
}

/// A row of items that is handed out item by item while a tree is walked.
pub struct ItemFeed<'a> {
    items: &'a Vec<KeyItem>,
    position: usize,
}

impl<'a> ItemFeed<'a> {
    /// The whole row.
    pub closed spec fn items(&self) -> Seq<KeyItem> {
        self.items@
    }

    /// How many items have been handed out.
    pub closed spec fn handed_out(&self) -> nat {
        self.position as nat
    }

    /// A feed that has handed out nothing of `items` yet.
    pub fn new(items: &'a Vec<KeyItem>) -> (feed: ItemFeed<'a>)
        ensures
            feed.items() == items@,
            feed.handed_out() == 0,
    {
        ItemFeed { items, position: 0 }
    }

    /// Hands out the next item where it is a key, and gives nothing where
    /// the row is used up or the next item is a key hash.
    pub fn next_key(&mut self) -> (key: Option<[u8; 33]>)
        ensures
            final(self).items() == old(self).items(),
            match key {
                Some(key) => old(self).handed_out() < old(self).items().len() && old(
                    self,
                ).items()[old(self).handed_out() as int] == KeyItem::Key(key)
                    && final(self).handed_out() == old(self).handed_out() + 1,
                None => final(self).handed_out() == old(self).handed_out() && !(old(
                    self,
                ).handed_out() < old(self).items().len() && old(self).items()[old(
                    self,
                ).handed_out() as int] is Key),
            },
    {
        if self.position < self.items.len() {
            match self.items[self.position] {
                KeyItem::Key(key) => {
                    self.position = self.position + 1;
                    Some(key)
                },
                KeyItem::KeyHash(_) => None,
            }
        } else {
            None
        }
    }

    /// Hands out the next item where it is a key hash, and gives nothing
    /// where the row is used up or the next item is a key.
    pub fn next_key_hash(&mut self) -> (hash: Option<[u8; 20]>)
        ensures
            final(self).items() == old(self).items(),
            match hash {
                Some(hash) => old(self).handed_out() < old(self).items().len() && old(
                    self,
                ).items()[old(self).handed_out() as int] == KeyItem::KeyHash(hash)
                    && final(self).handed_out() == old(self).handed_out() + 1,
                None => final(self).handed_out() == old(self).handed_out() && !(old(
                    self,
                ).handed_out() < old(self).items().len() && old(self).items()[old(
                    self,
                ).handed_out() as int] is KeyHash),
            },
    {
        if self.position < self.items.len() {
            match self.items[self.position] {
                KeyItem::KeyHash(hash) => {
                    self.position = self.position + 1;
                    Some(hash)
                },
                KeyItem::Key(_) => None,
            }
        } else {
            None
        }
    }
}

/// Parses `script` with `miniscript::Miniscript::parse` in the legacy
/// context and walks the tree with `translate_pk`, which calls the first
/// closure on every key leaf and the second on every key-hash leaf; the
/// closures write down in an [`ItemLog`] what they are given and change
/// nothing. Trusted: the row that comes back is the value named
/// [`script_key_items`], it is there exactly when the parser accepts the
/// script, and every key in it is the compressed encoding of a point.
#[verifier::external_body]
pub(crate) fn read_key_items(script: &[u8]) -> (items: Option<Vec<KeyItem>>)
    ensures
        items matches Some(row) ==> script_key_items(script@) == Some(item_views(row@))
            && forall|i: int| 0 <= i < row.len() ==> item_is_sound(#[trigger] row[i]@),
        items is None ==> script_key_items(script@) is None,
{
    let code = Script::from(script.to_vec());
    let tree = Miniscript::<bitcoin::PublicKey, Legacy>::parse(&code).ok()?;
    let log = RefCell::new(ItemLog::new());
    let _ = tree.translate_pk(
        &mut |key: &bitcoin::PublicKey| {
            log.borrow_mut().record_key(key.key.serialize());
            Ok::<bitcoin::PublicKey, ()>(*key)
        },
        &mut |hash: &hash160::Hash| {
            log.borrow_mut().record_key_hash(bitcoin::hashes::Hash::into_inner(*hash));
            Ok(*hash)
        },
    );
    Some(log.into_inner().into_items())
}

/// Parses `script` as [`read_key_items`] does and walks the tree with
/// `translate_pk`, whose closures take the next key or key hash from an
/// [`ItemFeed`] of `items` at each key and key-hash leaf, keys marked
/// compressed; the new tree is written with `Miniscript::encode`. Trusted:
/// the bytes are the value named [`script_with_key_items`].
#[verifier::external_body]
pub(crate) fn write_key_items(script: &[u8], items: &Vec<KeyItem>) -> (bytes: Vec<u8>)
    requires
        script_key_items(script@) matches Some(old_items) && fits(old_items, item_views(items@)),
    ensures
        bytes@ == script_with_key_items(script@, item_views(items@)),
{
    let code = Script::from(script.to_vec());
    let tree = Miniscript::<bitcoin::PublicKey, Legacy>::parse(&code).map_err(|_| ());
    let feed = RefCell::new(ItemFeed::new(items));
    let made = tree.and_then(|tree| tree.translate_pk(
        &mut |_| match feed.borrow_mut().next_key() {
            Some(key) => bitcoin::PublicKey::from_slice(&key).map_err(|_| ()),
            None => Err(()),
        },
        &mut |_| feed.borrow_mut().next_key_hash().map(bitcoin::hashes::Hash::from_inner).ok_or(()),
    ));
    made.map(|tree| tree.encode().into_bytes()).unwrap_or_default()
}

impl LockScript {
    /// The keys and key hashes at the leaves of the script tree, in the
    /// order of the parser's visit; `None` exactly where the script does
    /// not parse.
    pub fn key_items(&self) -> (items: Option<Vec<KeyItem>>)
        ensures
            items matches Some(row) ==> script_key_items(self@) == Some(item_views(row@))
                && forall|i: int| 0 <= i < row.len() ==> item_is_sound(#[trigger] row[i]@),
            items is None ==> script_key_items(self@) is None,
    {
        read_key_items(self.as_bytes())
    }
}

} // verus!
