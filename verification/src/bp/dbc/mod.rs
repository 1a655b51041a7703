//! Deterministic bitcoin commitments: embedding a commitment to a message
//! into a public key, a script, a transaction output or a taproot output.

mod error;
mod lockscript;
mod pubkey;
mod scriptpubkey;
mod taproot;
mod txout;

pub use error::Error;
pub use lockscript::{
    count, encodings_of_one_point_match_alike, found, hashes_seen, is_target, keys_seen,
    lemma_count_is_zero, lockscript_embedding, rewrite_items, rewrite_outcome, rewritten_item,
    rewritten_items, script_with_designated_key, script_with_foreign_hashes_only,
    script_with_foreign_keys, script_without_keys_and_hashes, substitution, tweak_substitution,
    verdict, LockscriptCommitment, LockscriptCommitmentView, LockscriptContainer,
    LockscriptContainerView, Substitution, Tally,
};
pub use pubkey::{pubkey_embedding, tweak_factor, tweaked_key, KeyTweak, PubkeyCommitment};
pub use scriptpubkey::{
    bare_key_script, classify, committed_script, key_container, key_hash_script, key_output,
    key_templates_are_told_apart, script_container, script_hash_script, script_output,
    script_templates_are_told_apart, scriptpubkey_embedding, template_of, witness_key_hash_script,
    witness_script_hash_script, write_bare_key_script, write_key_hash_script,
    write_script_hash_script, write_witness_key_hash_script, write_witness_script_hash_script,
    ScriptPubkeyCommitment, ScriptPubkeyCommitmentView, ScriptPubkeyContainer,
    ScriptPubkeyContainerView, ScriptTemplate,
};
pub use taproot::{
    taproot_container, taproot_embedding, taproot_verification_is_componentwise,
    taproot_verifies_as_key, TaprootCommitment, TaprootCommitmentView, TaprootContainer,
    TaprootContainerView,
};
pub use txout::{
    txout_container, txout_embedding, txout_verification_is_componentwise,
    txout_verifies_as_script, TxoutCommitment, TxoutCommitmentView, TxoutContainer,
    TxoutContainerView,
};
