//! Why embedding a commitment can fail.

use vstd::prelude::*;

verus! {

/// The ways in which embedding a commitment can fail.
#[derive(Clone, Copy, Debug, PartialEq, Eq, Structural)]
pub enum Error {
    /// The tweak is not a scalar below the curve order, or it takes the key
    /// to the point at infinity.
    InvalidTweak,
    /// The lock script is not one that the script parser understands.
    LockscriptParseError,
    /// The lock script holds neither a key nor a key hash.
    LockscriptContainsNoKeysOrHashes,
    /// The lock script holds key hashes only, and none is that of the
    /// designated key.
    LockscriptContainsUnknownHashesOnly,
    /// The lock script holds keys, and neither a key nor a key hash is
    /// that of the designated key.
    LockscriptKeyNotFound,
    /// The output script follows no template that a commitment can be
    /// embedded into.
    UnsupportedOutputType,
}

} // verus!
