use std::str::FromStr;

use bitcoin::hashes::{hash160, sha256};
use bitcoin::secp256k1;
use lnpbp::bp::dbc::{Error, LockscriptCommitment, LockscriptContainer};
use lnpbp::bp::keys::PublicKey;
use lnpbp::bp::scripts::LockScript;
use lnpbp::primitives::commit_verify::{EmbeddedCommitment, Verifiable};
use miniscript::{Legacy, Miniscript, MiniscriptKey, Segwitv0};

fn ms_str(text: String) -> Miniscript<bitcoin::PublicKey, Legacy> {
    Miniscript::<bitcoin::PublicKey, Legacy>::from_str(&text).unwrap()
}

fn policy_str(text: String) -> Miniscript<bitcoin::PublicKey, Segwitv0> {
    miniscript::policy::Concrete::<bitcoin::PublicKey>::from_str(&text)
        .unwrap()
        .compile()
        .unwrap()
}

fn pubkeys(n: usize) -> Vec<bitcoin::PublicKey> {
    let mut ret = Vec::with_capacity(n);
    let secp = secp256k1::Secp256k1::new();
    let mut sk = [0; 32];
    for i in 1..n + 1 {
        sk[0] = i as u8;
        sk[1] = (i >> 8) as u8;
        sk[2] = (i >> 16) as u8;

        let pk = bitcoin::PublicKey {
            key: secp256k1::PublicKey::from_secret_key(
                &secp,
                &secp256k1::SecretKey::from_slice(&sk[..]).expect("secret key"),
            ),
            compressed: true,
        };
        ret.push(pk);
    }
    ret
}

fn gen_test_data() -> (Vec<bitcoin::PublicKey>, Vec<hash160::Hash>, Vec<hash160::Hash>) {
    let keys = pubkeys(13);
    let key_hashes = keys.iter().map(MiniscriptKey::to_pubkeyhash).collect();
    let dummy_hashes = (1..13)
        .map(|i| bitcoin::hashes::Hash::from_inner([i; 20]))
        .collect();
    (keys, key_hashes, dummy_hashes)
}

fn lock_script<Ctx: miniscript::ScriptContext>(ms: &Miniscript<bitcoin::PublicKey, Ctx>) -> LockScript {
    LockScript::from_bytes(ms.encode().into_bytes())
}

fn key_of(key: &bitcoin::PublicKey) -> PublicKey {
    PublicKey::from_slice(&key.key.serialize()).unwrap()
}

fn message() -> Vec<u8> {
    "Test message".as_bytes().to_vec()
}

fn parsed(script: &LockScript) -> Miniscript<bitcoin::PublicKey, Legacy> {
    Miniscript::<bitcoin::PublicKey, Legacy>::parse(&bitcoin::Script::from(
        script.as_bytes().to_vec(),
    ))
    .unwrap()
}

#[test]
fn test_no_keys_and_hashes() {
    let (keys, _key_hashes, dummy_hashes) = gen_test_data();
    let sha_hash: sha256::Hash = bitcoin::hashes::Hash::hash(&"(nearly)random string".as_bytes());

    let ms = vec![
        ms_str(format!("older(921)")),
        ms_str(format!("sha256({})", sha_hash)),
        ms_str(format!("hash256({})", sha_hash)),
        ms_str(format!("hash160({})", dummy_hashes[0])),
        ms_str(format!("ripemd160({})", dummy_hashes[1])),
        ms_str(format!("hash160({})", dummy_hashes[2])),
    ];

    ms.into_iter().map(|ms| lock_script(&ms)).for_each(|ls| {
        assert_eq!(
            LockscriptCommitment::commit_embed(
                LockscriptContainer {
                    script: ls,
                    pubkey: key_of(&keys[0])
                },
                &message()
            )
            .err(),
            Some(Error::LockscriptContainsNoKeysOrHashes)
        );
    });
}

#[test]
fn test_unknown_key() {
    let (keys, _key_hashes, _dummy_hashes) = gen_test_data();

    let ms = vec![
        ms_str(format!("c:pk_k({})", keys[1])),
        ms_str(format!("c:pk_k({})", keys[2])),
        ms_str(format!("c:pk_k({})", keys[3])),
        ms_str(format!("c:pk_k({})", keys[4])),
    ];

    ms.into_iter().map(|ms| lock_script(&ms)).for_each(|ls| {
        assert_eq!(
            LockscriptCommitment::commit_embed(
                LockscriptContainer {
                    script: ls,
                    pubkey: key_of(&keys[0])
                },
                &message()
            )
            .err(),
            Some(Error::LockscriptKeyNotFound)
        );
    });
}

#[test]
fn test_unknown_hash() {
    let (keys, key_hashes, _dummy_hashes) = gen_test_data();

    let ms = vec![
        ms_str(format!("c:pk_h({})", key_hashes[1])),
        ms_str(format!("c:pk_h({})", key_hashes[2])),
        ms_str(format!("c:pk_h({})", key_hashes[3])),
        ms_str(format!("c:pk_h({})", key_hashes[4])),
    ];

    ms.into_iter().map(|ms| lock_script(&ms)).for_each(|ls| {
        assert_eq!(
            LockscriptCommitment::commit_embed(
                LockscriptContainer {
                    script: ls,
                    pubkey: key_of(&keys[0])
                },
                &message()
            )
            .err(),
            Some(Error::LockscriptContainsUnknownHashesOnly)
        );
    });
}

#[test]
fn test_known_key() {
    let (keys, _key_hashes, _dummy_hashes) = gen_test_data();

    let ms = vec![
        ms_str(format!("c:pk_k({})", keys[0])),
        ms_str(format!("c:pk_k({})", keys[1])),
        ms_str(format!("c:pk_k({})", keys[2])),
        ms_str(format!("c:pk_k({})", keys[3])),
    ];

    ms.into_iter()
        .map(|ms| lock_script(&ms))
        .enumerate()
        .for_each(|(idx, ls)| {
            let container = LockscriptContainer {
                script: ls,
                pubkey: key_of(&keys[idx]),
            };
            let msg = message();
            let commitment = LockscriptCommitment::commit_embed(container.clone(), &msg).unwrap();
            assert_eq!(commitment.get_original_container(), container);
            assert!(msg.verify(&commitment))
        });
}

#[test]
fn test_known_hash() {
    let (keys, key_hashes, _dummy_hashes) = gen_test_data();

    let ms = vec![
        ms_str(format!("c:pk_h({})", key_hashes[0])),
        ms_str(format!("c:pk_h({})", key_hashes[1])),
        ms_str(format!("c:pk_h({})", key_hashes[2])),
        ms_str(format!("c:pk_h({})", key_hashes[3])),
    ];

    ms.into_iter()
        .map(|ms| lock_script(&ms))
        .enumerate()
        .for_each(|(idx, ls)| {
            let container = LockscriptContainer {
                script: ls,
                pubkey: key_of(&keys[idx]),
            };
            let msg = message();
            let commitment = LockscriptCommitment::commit_embed(container.clone(), &msg).unwrap();
            assert_eq!(commitment.get_original_container(), container);
            assert!(msg.verify(&commitment))
        });
}

#[test]
fn test_multisig() {
    let (keys, _key_hashes, _dummy_hashes) = gen_test_data();

    let ms: Vec<Miniscript<bitcoin::PublicKey, Segwitv0>> = vec![
        policy_str(format!("thresh(2,pk({}),pk({}))", keys[0], keys[1],)),
        policy_str(format!(
            "thresh(3,pk({}),pk({}),pk({}),pk({}),pk({}))",
            keys[0], keys[1], keys[2], keys[3], keys[4]
        )),
    ];

    ms.into_iter().map(|ms| lock_script(&ms)).for_each(|ls| {
        let container = LockscriptContainer {
            script: ls,
            pubkey: key_of(&keys[1]),
        };
        let msg = message();
        let commitment = LockscriptCommitment::commit_embed(container.clone(), &msg).unwrap();
        assert_eq!(commitment.get_original_container(), container);
        assert!(msg.verify(&commitment))
    });
}

#[test]
fn test_complex_scripts_unique_key() {
    let (keys, _key_hashes, _dummy_hashes) = gen_test_data();

    let ms = policy_str(format!(
        "or(thresh(3,pk({}),pk({}),pk({})),and(thresh(2,pk({}),pk({})),older(10000)))",
        keys[0], keys[1], keys[2], keys[3], keys[4],
    ));

    let container = LockscriptContainer {
        script: lock_script(&ms),
        pubkey: key_of(&keys[1]),
    };
    let msg = message();
    let commitment = LockscriptCommitment::commit_embed(container.clone(), &msg).unwrap();
    assert_eq!(commitment.get_original_container(), container);
    assert!(msg.verify(&commitment))
}

#[test]
fn the_designated_key_is_replaced_by_the_tweaked_key() {
    let keys = pubkeys(3);
    let script = lock_script(&ms_str(format!("c:pk_k({})", keys[0])));
    let container = LockscriptContainer { script: script.clone(), pubkey: key_of(&keys[0]) };
    let commitment = LockscriptCommitment::commit_embed(container, &message()).unwrap();
    assert_ne!(commitment.script, script);
    let tweaked = lnpbp::bp::dbc::PubkeyCommitment::commit_to(key_of(&keys[0]), &message())
        .unwrap()
        .tweaked;
    let mut expected = vec![33u8];
    expected.extend_from_slice(&tweaked.serialize());
    expected.push(0xac);
    assert_eq!(commitment.script.as_bytes(), &expected[..]);
}

#[test]
fn a_key_in_three_branches_is_replaced_in_each() {
    let keys = pubkeys(3);
    let text = format!(
        "thresh(2,c:pk_k({}),sc:pk_k({}),sc:pk_k({}))",
        keys[0], keys[0], keys[0]
    );
    let script = lock_script(&ms_str(text));
    let items = {
        let mut seen = 0;
        parsed(&script)
            .translate_pk(
                &mut |key: &bitcoin::PublicKey| {
                    seen += 1;
                    Ok::<bitcoin::PublicKey, ()>(*key)
                },
                &mut |hash: &hash160::Hash| Ok(*hash),
            )
            .unwrap();
        seen
    };
    assert_eq!(items, 3);
    let container = LockscriptContainer { script, pubkey: key_of(&keys[0]) };
    let commitment = LockscriptCommitment::commit_embed(container, &message()).unwrap();
    let tweaked = lnpbp::bp::dbc::PubkeyCommitment::commit_to(key_of(&keys[0]), &message())
        .unwrap()
        .tweaked;
    let mut rewritten = Vec::new();
    parsed(&commitment.script)
        .translate_pk(
            &mut |key: &bitcoin::PublicKey| {
                rewritten.push(key.key.serialize());
                Ok::<bitcoin::PublicKey, ()>(*key)
            },
            &mut |hash: &hash160::Hash| Ok(*hash),
        )
        .unwrap();
    assert_eq!(rewritten, vec![tweaked.serialize(); 3]);
}

#[test]
fn an_uncompressed_key_in_the_script_matches_the_same_point() {
    let keys = pubkeys(2);
    let mut uncompressed = keys[0];
    uncompressed.compressed = false;
    let script = lock_script(&ms_str(format!("c:pk_k({})", uncompressed)));
    assert_eq!(script.as_bytes().len(), 67);
    let pubkey = PublicKey::from_slice(&keys[0].key.serialize_uncompressed()).unwrap();
    assert_eq!(pubkey, key_of(&keys[0]));
    let container = LockscriptContainer { script, pubkey };
    let commitment = LockscriptCommitment::commit_embed(container, &message()).unwrap();
    assert_eq!(commitment.script.as_bytes().len(), 35);
    assert!(message().verify(&commitment));
}

#[test]
fn a_script_that_does_not_parse_is_refused() {
    let keys = pubkeys(1);
    let container = LockscriptContainer {
        script: LockScript::from_bytes(vec![0x6a, 0x01, 0x02]),
        pubkey: key_of(&keys[0]),
    };
    assert_eq!(
        LockscriptCommitment::commit_embed(container, &message()).err(),
        Some(Error::LockscriptParseError)
    );
}

#[test]
fn verifying_against_another_message_fails() {
    let keys = pubkeys(1);
    let script = lock_script(&ms_str(format!("c:pk_k({})", keys[0])));
    let container = LockscriptContainer { script, pubkey: key_of(&keys[0]) };
    let commitment = LockscriptCommitment::commit_embed(container, &message()).unwrap();
    assert!(!"Another message".as_bytes().to_vec().verify(&commitment));
}

#[test]
fn arbitrary_bytes_are_parsed_or_refused() {
    let keys = pubkeys(1);
    let opcodes: [u8; 40] = [
        0x00, 0x51, 0x52, 0x60, 0x63, 0x64, 0x67, 0x68, 0x69, 0x6b, 0x6c, 0x73, 0x75, 0x76, 0x7c,
        0x82, 0x87, 0x88, 0x92, 0x93, 0x9a, 0x9b, 0xa6, 0xa8, 0xa9, 0xaa, 0xac, 0xad, 0xae, 0xaf,
        0xb1, 0xb2, 0x01, 0x02, 0x14, 0x20, 0x21, 0x41, 0x4c, 0xff,
    ];
    let mut state: u64 = 0x9E37_79B9_7F4A_7C15;
    let mut refused = 0;
    for round in 0..240u32 {
        let len = (round % 12) as usize;
        let mut bytes = Vec::with_capacity(len);
        for _ in 0..len {
            state = state.wrapping_mul(6364136223846793005).wrapping_add(1442695040888963407);
            let pick = (state >> 33) as usize;
            bytes.push(if pick % 4 == 0 { (pick >> 8) as u8 } else { opcodes[pick % opcodes.len()] });
        }
        let container = LockscriptContainer {
            script: LockScript::from_bytes(bytes),
            pubkey: key_of(&keys[0]),
        };
        if LockscriptCommitment::commit_embed(container, &message()).is_err() {
            refused += 1;
        }
    }
    assert!(refused > 0);
}

#[test]
fn key_items_of_arbitrary_bytes_are_read_or_refused() {
    let opcodes: [u8; 40] = [
        0x00, 0x51, 0x52, 0x60, 0x63, 0x64, 0x67, 0x68, 0x69, 0x6b, 0x6c, 0x73, 0x75, 0x76, 0x7c,
        0x82, 0x87, 0x88, 0x92, 0x93, 0x9a, 0x9b, 0xa6, 0xa8, 0xa9, 0xaa, 0xac, 0xad, 0xae, 0xaf,
        0xb1, 0xb2, 0x01, 0x02, 0x14, 0x20, 0x21, 0x41, 0x4c, 0xff,
    ];
    let mut state: u64 = 0x1234_5678_9ABC_DEF1;
    let mut read = 0;
    for round in 0..200_000u32 {
        let len = (round % 9) as usize;
        let mut bytes = Vec::with_capacity(len);
        for _ in 0..len {
            state = state.wrapping_mul(6364136223846793005).wrapping_add(1442695040888963407);
            let pick = (state >> 33) as usize;
            bytes.push(if pick % 8 == 0 { (pick >> 8) as u8 } else { opcodes[pick % opcodes.len()] });
        }
        if LockScript::from_bytes(bytes).key_items().is_some() {
            read += 1;
        }
    }
    assert!(read > 0);
}

#[test]
fn key_items_are_read_in_the_order_of_the_script() {
    let keys = pubkeys(3);
    let hash = MiniscriptKey::to_pubkeyhash(&keys[2]);
    let text = format!("and_v(vc:pk_k({}),and_v(vc:pk_h({}),c:pk_k({})))", keys[0], hash, keys[1]);
    let items = lock_script(&ms_str(text)).key_items().unwrap();
    assert_eq!(
        items,
        vec![
            lnpbp::bp::scripts::KeyItem::Key(keys[0].key.serialize()),
            lnpbp::bp::scripts::KeyItem::KeyHash(bitcoin::hashes::Hash::into_inner(hash)),
            lnpbp::bp::scripts::KeyItem::Key(keys[1].key.serialize()),
        ]
    );
    assert_eq!(lock_script(&ms_str(format!("older(9)"))).key_items(), Some(vec![]));
    assert_eq!(LockScript::from_bytes(vec![0xff]).key_items(), None);
}
