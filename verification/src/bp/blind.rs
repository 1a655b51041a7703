//! Blinding of transaction outpoints.
//!
//! An outpoint is published as the hash of the outpoint and a blinding
//! factor, so that it cannot be found by hashing every known outpoint.
//! Revealing the outpoint is disclosing the three hashed values.

use crate::bp::digests::{sha256d, sha256d_digest};
use vstd::prelude::*;

verus! {

/// The four bytes of `value`, most significant first.
pub open spec fn be_bytes_u32(value: u32) -> Seq<u8> {
    seq![
        (value / 0x100_0000) as u8,
        (value / 0x1_0000 % 0x100) as u8,
        (value / 0x100 % 0x100) as u8,
        (value % 0x100) as u8,
    ]
}

/// The two bytes of `value`, most significant first.
pub open spec fn be_bytes_u16(value: u16) -> Seq<u8> {
    seq![(value / 0x100) as u8, (value % 0x100) as u8]
}

/// The bytes that are hashed to blind an outpoint: the blinding factor, the
/// transaction id as it stands, and the output number.
pub open spec fn blinding_preimage(blinding: u32, txid: Seq<u8>, vout: u16) -> Seq<u8> {
    be_bytes_u32(blinding) + txid + be_bytes_u16(vout)
}

/// The hash that stands for an outpoint blinded with `blinding`.
pub open spec fn blind(blinding: u32, txid: Seq<u8>, vout: u16) -> Seq<u8> {
    sha256d(blinding_preimage(blinding, txid, vout))
}

/// An output of a transaction.
#[derive(Clone, Copy, Debug, PartialEq, Eq)]
pub struct OutPoint {
    /// The id of the transaction.
    pub txid: [u8; 32],
    /// The number of the output.
    pub vout: u32,
}

/// The hash that stands for a blinded outpoint.
#[derive(Clone, Copy, Debug, PartialEq, Eq)]
pub struct OutpointHash {
    /// The 32 bytes of the hash.
    pub bytes: [u8; 32],
}

/// A hash is viewed as its bytes.
impl View for OutpointHash {
    type V = Seq<u8>;

    open spec fn view(&self) -> Seq<u8> {
        self.bytes@
    }
}

/// What has to be known to blind an outpoint, or to reveal a blinded one.
#[derive(Clone, Copy, Debug, PartialEq, Eq)]
pub struct OutpointReveal {
    /// The blinding factor, which keeps the hash from being found by
    /// trying every known transaction id.
    pub blinding: u32,
    /// The id of the transaction.
    pub txid: [u8; 32],
    /// The number of the output.
    pub vout: u16,
}

/// The outpoint that a reveal discloses.
impl From<OutpointReveal> for OutPoint {
    fn from(reveal: OutpointReveal) -> (outpoint: OutPoint) {
        OutPoint { txid: reveal.txid, vout: reveal.vout as u32 }
    }
}

/// The conversion keeps the transaction id and widens the output number.
impl vstd::std_specs::convert::FromSpecImpl<OutpointReveal> for OutPoint {
    open spec fn obeys_from_spec() -> bool {
        true
    }

    open spec fn from_spec(reveal: OutpointReveal) -> OutPoint {
        OutPoint { txid: reveal.txid, vout: reveal.vout as u32 }
    }
}

impl OutpointReveal {
    /// The bytes that are hashed to blind this outpoint.
    pub fn preimage(&self) -> (bytes: Vec<u8>)
        ensures
            bytes@ == blinding_preimage(self.blinding, self.txid@, self.vout),
    {
        let mut bytes: Vec<u8> = Vec::new();
        bytes.push((self.blinding / 0x100_0000) as u8);
        bytes.push((self.blinding / 0x1_0000 % 0x100) as u8);
        bytes.push((self.blinding / 0x100 % 0x100) as u8);
        bytes.push((self.blinding % 0x100) as u8);
        bytes.extend_from_slice(&self.txid);
        bytes.push((self.vout / 0x100) as u8);
        bytes.push((self.vout % 0x100) as u8);
        assert(bytes@ =~= blinding_preimage(self.blinding, self.txid@, self.vout));
        bytes
    }

    /// The hash that stands for this outpoint: the double SHA-256 of the
    /// blinding factor, the transaction id and the output number.
    pub fn outpoint_hash(&self) -> (hash: OutpointHash)
        ensures
            hash@ == blind(self.blinding, self.txid@, self.vout),
    {
        let bytes = self.preimage();
        OutpointHash { bytes: sha256d_digest(bytes.as_slice()) }
    }

    /// The outpoint that is blinded.
    pub fn outpoint(&self) -> (outpoint: OutPoint)
        ensures
            outpoint.txid == self.txid,
            outpoint.vout == self.vout,
    {
        OutPoint::from(*self)
    }
}

} // verus!
