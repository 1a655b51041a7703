//! Public keys on the secp256k1 curve, held in their compressed encoding.
//!
//! A point has two encodings, a compressed one of 33 bytes and an
//! uncompressed one of 65 bytes. [`PublicKey`] always holds the compressed
//! one, so that two keys are the same point exactly when they hold the same
//! bytes, whatever encoding each was read from.

use crate::common::bytes::bytes_equal;
use vstd::prelude::*;

verus! {

/// The compressed encoding of the point that `data` encodes, in either
/// encoding; `None` where `data` encodes no point of the curve.
pub uninterp spec fn secp256k1_point(data: Seq<u8>) -> Option<Seq<u8>>;

/// The compressed encoding of `P + t·G`, where `P` is the point with the
/// compressed encoding `key` and `t` the scalar with the big-endian bytes
/// `tweak`; `None` where `t` is not below the curve order or the sum is the
/// point at infinity.
pub uninterp spec fn secp256k1_tweak_add(key: Seq<u8>, tweak: Seq<u8>) -> Option<Seq<u8>>;

/// Whether `key` is the compressed encoding of a point of the curve.
pub open spec fn is_compressed_point(key: Seq<u8>) -> bool {
    secp256k1_point(key) == Some(key)
}

/// Calls `secp256k1::PublicKey::from_slice` and, where it accepts the
/// data, `serialize` on the key. Trusted: the 33 bytes are the value named
/// [`secp256k1_point`] for the data, and reading them again gives the same
/// point.
#[verifier::external_body]
fn parse_point(data: &[u8]) -> (key: Option<[u8; 33]>)
    ensures
        key matches Some(k) ==> secp256k1_point(data@) == Some(k@) && is_compressed_point(k@),
        key is None ==> secp256k1_point(data@) is None,
{
    match bitcoin::secp256k1::PublicKey::from_slice(data) {
        Ok(point) => Some(point.serialize()),
        Err(_) => None,
    }
}

/// Calls `secp256k1::PublicKey::add_exp_assign` on the point that `key`
/// encodes, with a verification context, and serializes the sum. Trusted:
/// the outcome is the value named [`secp256k1_tweak_add`], and a sum that
/// comes back is again the compressed encoding of a point.
#[verifier::external_body]
fn tweak_add_point(key: &[u8; 33], tweak: &[u8; 32]) -> (sum: Option<[u8; 33]>)
    requires
        is_compressed_point(key@),
    ensures
        sum matches Some(k) ==> secp256k1_tweak_add(key@, tweak@) == Some(k@)
            && is_compressed_point(k@),
        sum is None ==> secp256k1_tweak_add(key@, tweak@) is None,
{
    let context = bitcoin::secp256k1::Secp256k1::verification_only();
    match bitcoin::secp256k1::PublicKey::from_slice(key) {
        Ok(mut point) => match point.add_exp_assign(&context, tweak) {
            Ok(()) => Some(point.serialize()),
            Err(_) => None,
        },
        Err(_) => None,
    }
}

/// A point of the secp256k1 curve.
#[derive(Clone, Copy, Debug, PartialEq, Eq)]
pub struct PublicKey {
    compressed: [u8; 33],
}

/// A key is viewed as its compressed encoding.
impl View for PublicKey {
    type V = Seq<u8>;

    /// The compressed encoding of the point.
    closed spec fn view(&self) -> Seq<u8> {
        self.compressed@
    }
}

impl PublicKey {
    #[verifier::type_invariant]
    spec fn well_formed(&self) -> bool {
        is_compressed_point(self.compressed@)
    }

    /// Reads a key from either of its encodings. Returns `None` exactly
    /// where the bytes encode no point of the curve.
    pub fn from_slice(data: &[u8]) -> (key: Option<PublicKey>)
        ensures
            key matches Some(k) ==> secp256k1_point(data@) == Some(k@),
            key is None ==> secp256k1_point(data@) is None,
    {
        match parse_point(data) {
            Some(compressed) => Some(PublicKey { compressed }),
            None => None,
        }
    }

    /// The compressed encoding of the key.
    pub fn serialize(&self) -> (bytes: [u8; 33])
        ensures
            bytes@ == self@,
            is_compressed_point(bytes@),
    {
        proof {
            use_type_invariant(self);
        }
        self.compressed
    }

    /// The key `P + t·G` for this key `P` and the scalar `t`. Returns
    /// `None` exactly where the scalar is out of range or the sum is the
    /// point at infinity.
    pub fn tweak_add(&self, tweak: &[u8; 32]) -> (sum: Option<PublicKey>)
        ensures
            sum matches Some(k) ==> secp256k1_tweak_add(self@, tweak@) == Some(k@),
            sum is None ==> secp256k1_tweak_add(self@, tweak@) is None,
    {
        proof {
            use_type_invariant(self);
        }
        match tweak_add_point(&self.compressed, tweak) {
            Some(compressed) => Some(PublicKey { compressed }),
            None => None,
        }
    }

    /// Whether this and `other` are the same point.
    pub fn equals(&self, other: &PublicKey) -> (same: bool)
        ensures
            same == (self@ == other@),
    {
        bytes_equal(&self.compressed, &other.compressed)
    }
}

} // verus!
