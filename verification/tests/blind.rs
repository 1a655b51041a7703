use bitcoin::hashes::sha256d;
use lnpbp::bp::blind::{OutPoint, OutpointReveal};

fn double_hash(data: &[u8]) -> [u8; 32] {
    let hash: sha256d::Hash = bitcoin::hashes::Hash::hash(data);
    bitcoin::hashes::Hash::into_inner(hash)
}

fn sample() -> OutpointReveal {
    let mut txid = [0u8; 32];
    for (i, byte) in txid.iter_mut().enumerate() {
        *byte = (i * 7 + 3) as u8;
    }
    OutpointReveal { blinding: 0x0102_0304, txid, vout: 0x0506 }
}

#[test]
fn preimage_is_blinding_then_txid_then_vout_big_endian() {
    let blinded = sample();
    let mut expected = vec![1u8, 2, 3, 4];
    expected.extend_from_slice(&blinded.txid);
    expected.extend_from_slice(&[5, 6]);
    assert_eq!(blinded.preimage(), expected);
    assert_eq!(blinded.preimage().len(), 38);
}

#[test]
fn outpoint_hash_is_the_double_hash_of_the_preimage() {
    let blinded = sample();
    let expected = double_hash(&blinded.preimage());
    assert_eq!(blinded.outpoint_hash().bytes, expected);
    assert_ne!(blinded.outpoint_hash().bytes, double_hash(&[]));
}

#[test]
fn blinding_is_a_function_of_its_inputs() {
    assert_eq!(sample().outpoint_hash(), sample().outpoint_hash());
}

#[test]
fn every_single_bit_changes_the_hash() {
    let base = sample();
    let hash = base.outpoint_hash();
    for bit in 0..32 {
        let mut changed = base;
        changed.blinding ^= 1 << bit;
        assert_ne!(changed.outpoint_hash(), hash);
    }
    for bit in 0..16 {
        let mut changed = base;
        changed.vout ^= 1 << bit;
        assert_ne!(changed.outpoint_hash(), hash);
    }
    for bit in 0..256 {
        let mut changed = base;
        changed.txid[bit / 8] ^= 1 << (bit % 8);
        assert_ne!(changed.outpoint_hash(), hash);
    }
}

#[test]
fn a_single_bit_changes_about_half_of_the_hash() {
    let base = sample();
    let hash = base.outpoint_hash().bytes;
    let mut flipped = 0u32;
    for bit in 0..32 {
        let mut changed = base;
        changed.blinding ^= 1 << bit;
        let other = changed.outpoint_hash().bytes;
        flipped += hash.iter().zip(other.iter()).map(|(a, b)| (a ^ b).count_ones()).sum::<u32>();
    }
    let mean = flipped / 32;
    assert!(mean > 96 && mean < 160);
}

#[test]
fn reveal_names_the_outpoint() {
    let outpoint = sample().outpoint();
    assert_eq!(outpoint.txid, sample().txid);
    assert_eq!(outpoint.vout, 0x0506);
    assert_eq!(OutPoint::from(sample()), outpoint);
}
