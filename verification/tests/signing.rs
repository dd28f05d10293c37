use bitcoin_ctf::engine::{
    add_signature, compute_input_digest, sign_all_inputs, verify_input_signature, weak_aux_rand,
};
use bitcoin_ctf::errors::CtfError;
use bitcoin_ctf::keys::{keys_from_seed, level_setup, LevelKeys};
use bitcoin_ctf::tx::{Transaction, TransactionBuilder, TxOut};

fn funded_tx(dest: Vec<u8>, total: u64) -> Transaction {
    let mut b = TransactionBuilder::new(0);
    b.add_input([0xab; 32], 0);
    let mut tx = b.build();
    bitcoin_ctf::challenge::finalize_output(&mut tx, dest, total, 2).unwrap();
    tx
}

fn prevouts_for(keys: &LevelKeys, total: u64) -> Vec<TxOut> {
    vec![TxOut { value: total, script_pubkey: keys.script_pubkey.clone() }]
}

#[test]
fn weak_aux_rand_has_31_zero_bytes() {
    // The two buffers must agree on all 31 leading bytes, which are the
    // fixed zero value, deterministically: only the last byte is fresh.
    let a = weak_aux_rand();
    let b = weak_aux_rand();
    for k in 0..31 {
        assert_eq!(a[k], 0);
        assert_eq!(b[k], 0);
        assert_eq!(a[k], b[k]);
    }
}

#[test]
fn scenario_single_key_spend() {
    // A fresh single-key taproot output of 50 chain units, spent by a
    // one-input transaction: signing succeeds, the local verification
    // holds against the output key, and the witness is one 65-byte
    // element.
    let keys = keys_from_seed([1u8; 32], false).unwrap();
    let total = 5_000_000_000;
    let dest = vec![0x51, 0x20, 0x77];
    let mut tx = funded_tx(dest, total);
    assert_eq!(tx.outputs[0].value, 4_999_999_880);
    let prevouts = prevouts_for(&keys, total);
    sign_all_inputs(&mut tx, &prevouts, &keys.secret_key, None).unwrap();
    assert_eq!(tx.inputs[0].witness.len(), 1);
    assert_eq!(tx.inputs[0].witness[0].len(), 65);
    assert_eq!(tx.inputs[0].witness[0][64], 0x01);
    assert_eq!(verify_input_signature(&tx, &prevouts, 0, &keys.output_key), Ok(true));
}

#[test]
fn scenario_committed_key_needs_tweak() {
    // Funding a committed (tweaked) address: signing with the tweak
    // scalar verifies against the tweaked output key; signing the same
    // transaction without the tweak must fail against that key (it
    // verifies only against the raw internal key).
    let keys = keys_from_seed([2u8; 32], true).unwrap();
    let tweak = keys.tweak.unwrap();
    let total = 5_000_000_000;
    let prevouts = prevouts_for(&keys, total);

    let mut with_tweak = funded_tx(vec![0x51, 0x20, 0x77], total);
    sign_all_inputs(&mut with_tweak, &prevouts, &keys.secret_key, Some(&tweak)).unwrap();
    assert_eq!(verify_input_signature(&with_tweak, &prevouts, 0, &keys.output_key), Ok(true));

    let mut without_tweak = funded_tx(vec![0x51, 0x20, 0x77], total);
    sign_all_inputs(&mut without_tweak, &prevouts, &keys.secret_key, None).unwrap();
    assert_eq!(
        verify_input_signature(&without_tweak, &prevouts, 0, &keys.output_key),
        Ok(false)
    );
    assert_eq!(
        verify_input_signature(&without_tweak, &prevouts, 0, &keys.internal_key),
        Ok(true)
    );
}

#[test]
fn key_derivation_matches_taproot_reference() {
    let seed = [2u8; 32];
    let keys = keys_from_seed(seed, true).unwrap();
    assert_ne!(keys.internal_key, seed);
    let secp = bitcoin::secp256k1::Secp256k1::new();
    let kp = bitcoin::key::Keypair::from_seckey_slice(&secp, &seed).unwrap();
    let internal = kp.x_only_public_key().0;
    assert_eq!(keys.internal_key, internal.serialize());
    let addr = bitcoin::Address::p2tr(&secp, internal, None, bitcoin::Network::Regtest);
    assert_eq!(addr.script_pubkey().as_bytes(), &keys.script_pubkey[..]);
    assert_ne!(keys.output_key, keys.internal_key);
}

#[test]
fn digest_matches_bip341_reference() {
    let keys = keys_from_seed([3u8; 32], false).unwrap();
    let total = 1_000_000;
    let tx = funded_tx(vec![0x51, 0x20, 0x44], total);
    let prevouts = prevouts_for(&keys, total);
    let digest = compute_input_digest(&tx, &prevouts, 0).unwrap();

    let chain_tx = bitcoin::Transaction {
        version: bitcoin::transaction::Version(2),
        lock_time: bitcoin::absolute::LockTime::ZERO,
        input: vec![bitcoin::TxIn {
            previous_output: bitcoin::OutPoint {
                txid: <bitcoin::Txid as bitcoin::hashes::Hash>::from_byte_array([0xab; 32]),
                vout: 0,
            },
            script_sig: bitcoin::ScriptBuf::new(),
            sequence: bitcoin::Sequence::MAX,
            witness: bitcoin::Witness::default(),
        }],
        output: vec![bitcoin::TxOut {
            value: bitcoin::Amount::from_sat(tx.outputs[0].value),
            script_pubkey: bitcoin::ScriptBuf::from(vec![0x51, 0x20, 0x44]),
        }],
    };
    let chain_prevouts = vec![bitcoin::TxOut {
        value: bitcoin::Amount::from_sat(total),
        script_pubkey: bitcoin::ScriptBuf::from(keys.script_pubkey.clone()),
    }];
    let mut cache = bitcoin::sighash::SighashCache::new(chain_tx);
    let expected = cache
        .taproot_key_spend_signature_hash(
            0,
            &bitcoin::sighash::Prevouts::All(&chain_prevouts),
            bitcoin::TapSighashType::All,
        )
        .unwrap();
    assert_eq!(digest, <bitcoin::TapSighash as bitcoin::hashes::Hash>::to_byte_array(expected));
}

#[test]
fn prevout_count_mismatch_is_refused() {
    // One previous output per input is a hard precondition: a mismatched
    // list is refused, never silently signed over.
    let keys = keys_from_seed([4u8; 32], false).unwrap();
    let mut tx = funded_tx(vec![0x51, 0x20, 0x44], 1_000_000);
    let empty: Vec<TxOut> = Vec::new();
    assert_eq!(compute_input_digest(&tx, &empty, 0), Err(CtfError::PrevoutCountMismatch));
    assert_eq!(
        add_signature(&mut tx, 0, &empty, &keys.secret_key, None),
        Err(CtfError::PrevoutCountMismatch)
    );
    let two = vec![
        TxOut { value: 1, script_pubkey: vec![] },
        TxOut { value: 2, script_pubkey: vec![] },
    ];
    assert_eq!(
        sign_all_inputs(&mut tx, &two, &keys.secret_key, None),
        Err(CtfError::PrevoutCountMismatch)
    );
    assert!(tx.inputs[0].witness.is_empty());
}

#[test]
fn input_index_out_of_range_is_refused() {
    let keys = keys_from_seed([5u8; 32], false).unwrap();
    let total = 1_000_000;
    let mut tx = funded_tx(vec![0x51, 0x20, 0x44], total);
    let prevouts = prevouts_for(&keys, total);
    assert_eq!(compute_input_digest(&tx, &prevouts, 1), Err(CtfError::InputIndexOutOfRange));
    assert_eq!(
        add_signature(&mut tx, 7, &prevouts, &keys.secret_key, None),
        Err(CtfError::InputIndexOutOfRange)
    );
}

#[test]
fn invalid_tweak_is_refused() {
    let keys = keys_from_seed([6u8; 32], false).unwrap();
    let total = 1_000_000;
    let mut tx = funded_tx(vec![0x51, 0x20, 0x44], total);
    let prevouts = prevouts_for(&keys, total);
    let not_a_scalar = [0xff; 32];
    assert_eq!(
        add_signature(&mut tx, 0, &prevouts, &keys.secret_key, Some(&not_a_scalar)),
        Err(CtfError::InvalidTweak)
    );
    // The curve order itself is the smallest out-of-range value.
    let order: [u8; 32] = [
        0xff, 0xff, 0xff, 0xff, 0xff, 0xff, 0xff, 0xff, 0xff, 0xff, 0xff, 0xff, 0xff, 0xff, 0xff,
        0xfe, 0xba, 0xae, 0xdc, 0xe6, 0xaf, 0x48, 0xa0, 0x3b, 0xbf, 0xd2, 0x5e, 0x8c, 0xd0, 0x36,
        0x41, 0x41,
    ];
    assert_eq!(
        add_signature(&mut tx, 0, &prevouts, &keys.secret_key, Some(&order)),
        Err(CtfError::InvalidTweak)
    );
    assert!(tx.inputs[0].witness.is_empty());
}

#[test]
fn unusable_signing_key_is_refused() {
    // All-zero bytes are not a valid secret key; the engine reports the
    // key itself, not the tweak, as the cause — with or without a tweak.
    let keys = keys_from_seed([8u8; 32], true).unwrap();
    let tweak = keys.tweak.unwrap();
    let total = 1_000_000;
    let mut tx = funded_tx(vec![0x51, 0x20, 0x44], total);
    let prevouts = prevouts_for(&keys, total);
    let zero_key = [0u8; 32];
    assert_eq!(
        add_signature(&mut tx, 0, &prevouts, &zero_key, None),
        Err(CtfError::InvalidSecretKey)
    );
    assert_eq!(
        add_signature(&mut tx, 0, &prevouts, &zero_key, Some(&tweak)),
        Err(CtfError::InvalidSecretKey)
    );
    assert!(tx.inputs[0].witness.is_empty());
}

#[test]
fn invalid_secret_key_is_refused() {
    assert!(matches!(keys_from_seed([0u8; 32], false), Err(CtfError::InvalidSecretKey)));
}

#[test]
fn unsigned_witness_is_malformed_for_verification() {
    let keys = keys_from_seed([7u8; 32], false).unwrap();
    let total = 1_000_000;
    let tx = funded_tx(vec![0x51, 0x20, 0x44], total);
    let prevouts = prevouts_for(&keys, total);
    assert_eq!(
        verify_input_signature(&tx, &prevouts, 0, &keys.output_key),
        Err(CtfError::MalformedWitness)
    );
}

#[test]
fn level_setup_draws_fresh_keys() {
    let committed = level_setup(true).unwrap();
    assert!(committed.tweak.is_some());
    assert_eq!(committed.script_pubkey.len(), 34);
    assert_eq!(committed.script_pubkey[0], 0x51);
    assert_eq!(committed.script_pubkey[1], 0x20);
    assert_eq!(&committed.script_pubkey[2..], &committed.output_key[..]);
    let plain = level_setup(false).unwrap();
    assert!(plain.tweak.is_none());
    assert_eq!(plain.output_key, plain.internal_key);
}
