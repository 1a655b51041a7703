use bitcoin::hashes::{hash160, sha256, HashEngine, Hmac, HmacEngine};
use bitcoin::secp256k1;
use lnpbp::bp::dbc::{
    classify, rewrite_items, Error, LockscriptContainer, PubkeyCommitment, ScriptPubkeyCommitment,
    ScriptPubkeyContainer, ScriptTemplate, Tally, TaprootCommitment, TaprootContainer, TxoutCommitment,
    TxoutContainer,
};
use lnpbp::bp::keys::PublicKey;
use lnpbp::bp::scripts::{KeyItem, LockScript};
use lnpbp::primitives::commit_verify::{EmbedCommittable, EmbeddedCommitment, Verifiable};

fn secp_key(seed: u8) -> secp256k1::PublicKey {
    let secp = secp256k1::Secp256k1::new();
    let mut sk = [0u8; 32];
    sk[0] = seed;
    secp256k1::PublicKey::from_secret_key(&secp, &secp256k1::SecretKey::from_slice(&sk).unwrap())
}

fn key(seed: u8) -> PublicKey {
    PublicKey::from_slice(&secp_key(seed).serialize()).unwrap()
}

fn message() -> Vec<u8> {
    "Test message".as_bytes().to_vec()
}

fn expected_tweak(original: &secp256k1::PublicKey, msg: &[u8]) -> secp256k1::PublicKey {
    let mut engine = HmacEngine::<sha256::Hash>::new(&original.serialize());
    let digest: sha256::Hash = bitcoin::hashes::Hash::hash(msg);
    engine.input(&digest[..]);
    let factor: Hmac<sha256::Hash> = bitcoin::hashes::Hash::from_engine(engine);
    let mut tweaked = original.clone();
    tweaked
        .add_exp_assign(&secp256k1::Secp256k1::new(), &factor[..])
        .unwrap();
    tweaked
}

fn pay_to_key_script(seed: u8) -> LockScript {
    let mut bytes = vec![33u8];
    bytes.extend_from_slice(&secp_key(seed).serialize());
    bytes.push(0xac);
    LockScript::from_bytes(bytes)
}

#[test]
fn key_is_tweaked_by_the_hmac_of_the_message_digest() {
    let commitment = PubkeyCommitment::commit_to(key(1), &message()).unwrap();
    assert_eq!(commitment.original, key(1));
    assert_eq!(
        commitment.tweaked.serialize(),
        expected_tweak(&secp_key(1), &message()).serialize()
    );
    assert_ne!(commitment.tweaked, commitment.original);
}

#[test]
fn key_commitment_round_trips() {
    let msg = message();
    let commitment = msg.clone().commit_embed(key(2)).unwrap();
    let commitment: PubkeyCommitment = commitment;
    assert_eq!(commitment.get_original_container(), key(2));
    assert!(msg.verify(&commitment));
}

#[test]
fn key_commitment_is_deterministic() {
    let first = PubkeyCommitment::commit_to(key(3), &message()).unwrap();
    let second = PubkeyCommitment::commit_to(key(3), &message()).unwrap();
    assert_eq!(first, second);
    assert!(first.equals(&second));
}

#[test]
fn key_commitment_rejects_another_message() {
    let commitment = PubkeyCommitment::commit_to(key(4), &message()).unwrap();
    assert!(!"Test messagf".as_bytes().to_vec().verify(&commitment));
    assert!(!Vec::<u8>::new().verify(&commitment));
}

#[test]
fn key_commitment_rejects_another_key() {
    let mut commitment = PubkeyCommitment::commit_to(key(5), &message()).unwrap();
    commitment.original = key(6);
    assert!(!message().verify(&commitment));
}

#[test]
fn both_encodings_of_a_point_give_the_same_key() {
    let point = secp_key(7);
    let compressed = PublicKey::from_slice(&point.serialize()).unwrap();
    let uncompressed = PublicKey::from_slice(&point.serialize_uncompressed()).unwrap();
    assert_eq!(compressed, uncompressed);
    assert!(compressed.equals(&uncompressed));
    assert_eq!(uncompressed.serialize(), point.serialize());
}

#[test]
fn bytes_that_encode_no_point_are_no_key() {
    assert!(PublicKey::from_slice(&[]).is_none());
    assert!(PublicKey::from_slice(&[2u8; 32]).is_none());
    assert!(PublicKey::from_slice(&[0u8; 33]).is_none());
    let mut off_curve = [0xFFu8; 33];
    off_curve[0] = 2;
    assert!(PublicKey::from_slice(&off_curve).is_none());
}

#[test]
fn tweak_out_of_range_is_invalid() {
    assert!(key(1).tweak_add(&[0xFFu8; 32]).is_none());
    let mut one = [0u8; 32];
    one[31] = 1;
    let sum = key(1).tweak_add(&one).unwrap();
    let mut sk = [0u8; 32];
    sk[0] = 1;
    sk[31] = 1;
    let expected = secp256k1::PublicKey::from_secret_key(
        &secp256k1::Secp256k1::new(),
        &secp256k1::SecretKey::from_slice(&sk).unwrap(),
    );
    assert_eq!(sum.serialize(), expected.serialize());
}

#[test]
fn templates_are_told_apart() {
    let mut p2pk = vec![33u8];
    p2pk.extend_from_slice(&[2u8; 33]);
    p2pk.push(0xac);
    assert_eq!(classify(&p2pk), ScriptTemplate::BareKey);
    let mut p2pk_long = vec![65u8];
    p2pk_long.extend_from_slice(&[4u8; 65]);
    p2pk_long.push(0xac);
    assert_eq!(classify(&p2pk_long), ScriptTemplate::BareKey);
    let mut p2pkh = vec![0x76u8, 0xa9, 20];
    p2pkh.extend_from_slice(&[7u8; 20]);
    p2pkh.extend_from_slice(&[0x88, 0xac]);
    assert_eq!(classify(&p2pkh), ScriptTemplate::KeyHash);
    let mut p2sh = vec![0xa9u8, 20];
    p2sh.extend_from_slice(&[7u8; 20]);
    p2sh.push(0x87);
    assert_eq!(classify(&p2sh), ScriptTemplate::ScriptHash);
    let mut p2wpkh = vec![0u8, 20];
    p2wpkh.extend_from_slice(&[7u8; 20]);
    assert_eq!(classify(&p2wpkh), ScriptTemplate::WitnessKeyHash);
    let mut p2wsh = vec![0u8, 32];
    p2wsh.extend_from_slice(&[7u8; 32]);
    assert_eq!(classify(&p2wsh), ScriptTemplate::WitnessScriptHash);
    assert_eq!(classify(&[]), ScriptTemplate::Other);
    assert_eq!(classify(&[0x6a, 1, 2]), ScriptTemplate::Other);
    for script in [&p2pk, &p2pkh, &p2sh, &p2wpkh, &p2wsh] {
        let code = bitcoin::Script::from(script.clone());
        assert_eq!(code.is_p2pk(), classify(script) == ScriptTemplate::BareKey);
        assert_eq!(code.is_p2pkh(), classify(script) == ScriptTemplate::KeyHash);
        assert_eq!(code.is_p2sh(), classify(script) == ScriptTemplate::ScriptHash);
        assert_eq!(code.is_v0_p2wpkh(), classify(script) == ScriptTemplate::WitnessKeyHash);
        assert_eq!(code.is_v0_p2wsh(), classify(script) == ScriptTemplate::WitnessScriptHash);
    }
}

#[test]
fn key_templates_are_written_around_the_tweaked_key() {
    let tweaked = expected_tweak(&secp_key(1), &message()).serialize();
    let key_hash: hash160::Hash = bitcoin::hashes::Hash::hash(&tweaked);

    let bare = ScriptPubkeyCommitment::commit_to(ScriptPubkeyContainer::BareKey(key(1)), &message())
        .unwrap();
    let mut expected = vec![33u8];
    expected.extend_from_slice(&tweaked);
    expected.push(0xac);
    assert_eq!(bare.script_pubkey, expected);
    assert_eq!(classify(&bare.script_pubkey), ScriptTemplate::BareKey);

    let hashed = ScriptPubkeyCommitment::commit_to(ScriptPubkeyContainer::KeyHash(key(1)), &message())
        .unwrap();
    let mut expected = vec![0x76u8, 0xa9, 20];
    expected.extend_from_slice(&key_hash[..]);
    expected.extend_from_slice(&[0x88, 0xac]);
    assert_eq!(hashed.script_pubkey, expected);
    assert_eq!(classify(&hashed.script_pubkey), ScriptTemplate::KeyHash);

    let witness =
        ScriptPubkeyCommitment::commit_to(ScriptPubkeyContainer::WitnessKeyHash(key(1)), &message())
            .unwrap();
    let mut expected = vec![0u8, 20];
    expected.extend_from_slice(&key_hash[..]);
    assert_eq!(witness.script_pubkey, expected);
    assert_eq!(classify(&witness.script_pubkey), ScriptTemplate::WitnessKeyHash);
    assert!(message().verify(&witness));
    assert!(!"other".as_bytes().to_vec().verify(&witness));
}

#[test]
fn script_templates_are_written_around_the_rewritten_script() {
    let container = LockscriptContainer { script: pay_to_key_script(1), pubkey: key(1) };
    let rewritten = lnpbp::bp::dbc::LockscriptCommitment::commit_embed(container.clone(), &message())
        .unwrap()
        .script;

    let hashed =
        ScriptPubkeyCommitment::commit_to(ScriptPubkeyContainer::ScriptHash(container.clone()), &message())
            .unwrap();
    assert_eq!(
        hashed.script_pubkey,
        bitcoin::Script::from(rewritten.as_bytes().to_vec()).to_p2sh().into_bytes()
    );

    let witness = ScriptPubkeyCommitment::commit_to(
        ScriptPubkeyContainer::WitnessScriptHash(container.clone()),
        &message(),
    )
    .unwrap();
    assert_eq!(
        witness.script_pubkey,
        bitcoin::Script::from(rewritten.as_bytes().to_vec()).to_v0_p2wsh().into_bytes()
    );

    let bare =
        ScriptPubkeyCommitment::commit_to(ScriptPubkeyContainer::BareScript(container.clone()), &message())
            .unwrap();
    assert_eq!(bare.script_pubkey, rewritten.as_bytes());
    assert_eq!(bare.get_original_container(), ScriptPubkeyContainer::BareScript(container));
    assert!(message().verify(&bare));
}

#[test]
fn unsupported_script_is_refused() {
    assert_eq!(
        ScriptPubkeyCommitment::commit_to(
            ScriptPubkeyContainer::Unsupported(vec![0x6a, 1, 2]),
            &message()
        )
        .err(),
        Some(Error::UnsupportedOutputType)
    );
}

#[test]
fn script_errors_pass_through_the_output_script() {
    let foreign = LockscriptContainer { script: pay_to_key_script(1), pubkey: key(2) };
    assert_eq!(
        ScriptPubkeyCommitment::commit_to(ScriptPubkeyContainer::ScriptHash(foreign.clone()), &message())
            .err(),
        Some(Error::LockscriptKeyNotFound)
    );
    let container = TxoutContainer {
        value: 5,
        script_container: ScriptPubkeyContainer::WitnessScriptHash(foreign),
    };
    assert_eq!(
        TxoutCommitment::commit_embed(container, &message()).err(),
        Some(Error::LockscriptKeyNotFound)
    );
}

#[test]
fn output_carries_the_value_and_commits_in_the_script() {
    let container = TxoutContainer {
        value: 21_000_000,
        script_container: ScriptPubkeyContainer::WitnessKeyHash(key(9)),
    };
    let commitment = TxoutCommitment::commit_embed(container.clone(), &message()).unwrap();
    assert_eq!(commitment.value, 21_000_000);
    assert_eq!(
        commitment.script_commitment,
        ScriptPubkeyCommitment::commit_to(ScriptPubkeyContainer::WitnessKeyHash(key(9)), &message())
            .unwrap()
    );
    assert_eq!(commitment.container(), container);
    assert!(message().verify(&commitment));
    assert_eq!(message().verify(&commitment), message().verify(&commitment.script_commitment));
    let other = "other".as_bytes().to_vec();
    assert_eq!(other.clone().verify(&commitment), other.verify(&commitment.script_commitment));
}

#[test]
fn output_with_another_value_is_another_commitment() {
    let container = TxoutContainer {
        value: 1,
        script_container: ScriptPubkeyContainer::BareKey(key(9)),
    };
    let commitment = TxoutCommitment::commit_embed(container, &message()).unwrap();
    let mut changed = commitment.clone();
    changed.value = 2;
    assert!(!changed.equals(&commitment));
    assert!(message().verify(&changed));
    assert_eq!(changed.container().value, 2);
}

#[test]
fn taproot_carries_the_root_and_commits_in_the_key() {
    let container = TaprootContainer { script_root: [0xAB; 32], intermediate_key: key(11) };
    let commitment = TaprootCommitment::commit_to(container, &message()).unwrap();
    assert_eq!(commitment.script_root, [0xAB; 32]);
    assert_eq!(
        commitment.pubkey_commitment,
        PubkeyCommitment::commit_to(key(11), &message()).unwrap()
    );
    assert_eq!(commitment.get_original_container(), container);
    assert!(message().verify(&commitment));
    assert_eq!(message().verify(&commitment), message().verify(&commitment.pubkey_commitment));
    let other = "other".as_bytes().to_vec();
    assert!(!other.clone().verify(&commitment));
    assert_eq!(other.clone().verify(&commitment), other.verify(&commitment.pubkey_commitment));
}

#[test]
fn rewrite_counts_keys_hashes_and_matches() {
    let key = [2u8; 33];
    let other = [3u8; 33];
    let new_key = [4u8; 33];
    let hash = [5u8; 20];
    let other_hash = [7u8; 20];
    let new_hash = [6u8; 20];

    let once = vec![KeyItem::Key(other), KeyItem::Key(key), KeyItem::KeyHash(other_hash)];
    let (out, tally) = rewrite_items(&once, &key, &hash, &new_key, &new_hash);
    assert_eq!(tally, Tally { found: 1, keys_seen: 2, hashes_seen: 1 });
    assert_eq!(out, vec![KeyItem::Key(other), KeyItem::Key(new_key), KeyItem::KeyHash(other_hash)]);
    assert_eq!(tally.verdict(), None);

    let thrice = vec![
        KeyItem::Key(key),
        KeyItem::Key(other),
        KeyItem::KeyHash(hash),
        KeyItem::Key(key),
    ];
    let (out, tally) = rewrite_items(&thrice, &key, &hash, &new_key, &new_hash);
    assert_eq!(tally, Tally { found: 3, keys_seen: 3, hashes_seen: 1 });
    assert_eq!(
        out,
        vec![
            KeyItem::Key(new_key),
            KeyItem::Key(other),
            KeyItem::KeyHash(new_hash),
            KeyItem::Key(new_key),
        ]
    );

    let (out, tally) = rewrite_items(&vec![], &key, &hash, &new_key, &new_hash);
    assert!(out.is_empty());
    assert_eq!(tally.verdict(), Some(Error::LockscriptContainsNoKeysOrHashes));

    let (_, tally) = rewrite_items(&vec![KeyItem::KeyHash(other_hash)], &key, &hash, &new_key, &new_hash);
    assert_eq!(tally.verdict(), Some(Error::LockscriptContainsUnknownHashesOnly));

    let foreign = vec![KeyItem::KeyHash(other_hash), KeyItem::Key(other)];
    let (out, tally) = rewrite_items(&foreign, &key, &hash, &new_key, &new_hash);
    assert_eq!(out, foreign);
    assert_eq!(tally.verdict(), Some(Error::LockscriptKeyNotFound));
}

#[test]
fn invalid_tweak_is_an_error_of_its_own() {
    assert_eq!(
        Tally { found: 0, keys_seen: 0, hashes_seen: 0 }.verdict(),
        Some(Error::LockscriptContainsNoKeysOrHashes)
    );
    assert_ne!(Error::InvalidTweak, Error::LockscriptKeyNotFound);
}

#[test]
fn output_scripts_route_by_their_template() {
    let mut p2pkh = vec![0x76u8, 0xa9, 20];
    p2pkh.extend_from_slice(&[7u8; 20]);
    p2pkh.extend_from_slice(&[0x88, 0xac]);
    let mut p2wsh = vec![0u8, 32];
    p2wsh.extend_from_slice(&[7u8; 32]);
    let inner = LockscriptContainer { script: pay_to_key_script(1), pubkey: key(1) };

    assert_eq!(ScriptPubkeyContainer::for_key(&p2pkh, key(1)), ScriptPubkeyContainer::KeyHash(key(1)));
    assert_eq!(
        ScriptPubkeyContainer::for_key(&p2wsh, key(1)),
        ScriptPubkeyContainer::Unsupported(p2wsh.clone())
    );
    assert_eq!(
        ScriptPubkeyContainer::for_script(&p2wsh, inner.clone()),
        ScriptPubkeyContainer::WitnessScriptHash(inner.clone())
    );
    assert_eq!(
        ScriptPubkeyContainer::for_script(&p2pkh, inner.clone()),
        ScriptPubkeyContainer::Unsupported(p2pkh.clone())
    );
    assert_eq!(
        ScriptPubkeyContainer::for_script(inner.script.as_bytes(), inner.clone()),
        ScriptPubkeyContainer::Unsupported(inner.script.as_bytes().to_vec())
    );
    assert_eq!(
        ScriptPubkeyContainer::for_script(&[0x6a, 1, 2], inner.clone()),
        ScriptPubkeyContainer::BareScript(inner)
    );
    assert_eq!(
        ScriptPubkeyCommitment::commit_to(ScriptPubkeyContainer::for_key(&p2wsh, key(1)), &message())
            .err(),
        Some(Error::UnsupportedOutputType)
    );
}
