//! Key and address derivation: a fresh secret key, its x-only public key,
//! and either a plain single-key taproot output or a committed (tweaked)
//! output derived from an empty script tree.

use vstd::prelude::*;

use crate::encode::push_bytes32;
use crate::errors::CtfError;

verus! {

/// The x-only public key derived from 32 secret-key bytes.
pub uninterp spec fn spec_xonly_pubkey(sk: Seq<u8>) -> Seq<u8>;

/// Whether 32 bytes are a valid secret key for the curve — exactly the
/// bytes Keypair::from_seckey_slice accepts (nonzero and below the curve
/// order); a function of the bytes alone.
pub uninterp spec fn spec_seckey_valid(sk: Seq<u8>) -> bool;

/// Whether 32 bytes encode an x-only public key — exactly the bytes
/// XOnlyPublicKey::from_slice accepts; a function of the bytes alone.
pub uninterp spec fn spec_xonly_bytes_valid(pk: Seq<u8>) -> bool;

/// The taproot tweak scalar committing the internal key to an empty
/// script tree.
pub uninterp spec fn spec_tap_tweak(internal_key: Seq<u8>) -> Seq<u8>;

/// The taproot output key for the internal key with an empty script tree.
pub uninterp spec fn spec_tap_output_key(internal_key: Seq<u8>) -> Seq<u8>;

/// Relies on rand::random for an OS-seeded fresh 32-byte secret; nothing
/// is promised of the value.
#[verifier::external_body]
fn random_seed_call() -> [u8; 32] {
    rand::random()
}

/// Relies on secp256k1's Keypair::from_seckey_slice and
/// XOnlyPublicKey::serialize: the x-only public key is a function of the
/// secret-key bytes alone; the call fails exactly when the bytes are not
/// a valid secret key; the serialized key is a valid x-only key encoding
/// (serialize and from_slice round-trip).
#[verifier::external_body]
pub(crate) fn xonly_pubkey_call(sk: &[u8; 32]) -> (r: Option<[u8; 32]>)
    ensures
        r is Some <==> spec_seckey_valid(sk@),
        r matches Some(pk) ==> pk@ == spec_xonly_pubkey(sk@) && spec_xonly_bytes_valid(pk@),
{
    let secp = bitcoin::secp256k1::Secp256k1::new();
    let kp = bitcoin::key::Keypair::from_seckey_slice(&secp, sk).ok()?;
    Some(kp.x_only_public_key().0.serialize())
}

/// Relies on bitcoin's TaprootBuilder::finalize (with an empty script
/// tree) and TapTweakHash::to_scalar: the tweak scalar is a function of
/// the internal key bytes alone, and the only failure is key bytes that
/// XOnlyPublicKey::from_slice rejects (an empty builder always
/// finalizes).
#[verifier::external_body]
fn tap_tweak_call(internal_key: &[u8; 32]) -> (r: Option<[u8; 32]>)
    ensures
        r is Some <==> spec_xonly_bytes_valid(internal_key@),
        r matches Some(t) ==> t@ == spec_tap_tweak(internal_key@),
{
    let secp = bitcoin::secp256k1::Secp256k1::new();
    let pk = bitcoin::secp256k1::XOnlyPublicKey::from_slice(internal_key).ok()?;
    let info = bitcoin::taproot::TaprootBuilder::new().finalize(&secp, pk).ok()?;
    Some(info.tap_tweak().to_scalar().to_be_bytes())
}

/// Relies on bitcoin's TaprootBuilder::finalize (with an empty script
/// tree) and TaprootSpendInfo::output_key: the tweaked output key is a
/// function of the internal key bytes alone, and the only failure is key
/// bytes that XOnlyPublicKey::from_slice rejects.
#[verifier::external_body]
fn tap_output_key_call(internal_key: &[u8; 32]) -> (r: Option<[u8; 32]>)
    ensures
        r is Some <==> spec_xonly_bytes_valid(internal_key@),
        r matches Some(k) ==> k@ == spec_tap_output_key(internal_key@),
{
    let secp = bitcoin::secp256k1::Secp256k1::new();
    let pk = bitcoin::secp256k1::XOnlyPublicKey::from_slice(internal_key).ok()?;
    let info = bitcoin::taproot::TaprootBuilder::new().finalize(&secp, pk).ok()?;
    Some(info.output_key().serialize())
}

/// The taproot locking script for an output key: OP_1, a 32-byte push,
/// and the key itself.
pub open spec fn spec_p2tr_script(output_key: Seq<u8>) -> Seq<u8> {
    seq![0x51u8, 0x20u8] + output_key
}

/// Builds the taproot locking script for `output_key`.
pub fn p2tr_script(output_key: &[u8; 32]) -> (r: Vec<u8>)
    ensures
        r@ == spec_p2tr_script(output_key@),
{
    let mut v: Vec<u8> = Vec::new();
    v.push(0x51);
    v.push(0x20);
    push_bytes32(&mut v, output_key);
    proof {
        assert(v@ =~= spec_p2tr_script(output_key@));
    }
    v
}

/// The key material a level signs with: the secret key, its internal
/// public key, the output key the funds are locked to, the tweak scalar
/// when the output key is committed, and the derived locking script.
pub struct LevelKeys {
    pub secret_key: [u8; 32],
    pub internal_key: [u8; 32],
    pub output_key: [u8; 32],
    pub tweak: Option<[u8; 32]>,
    pub script_pubkey: Vec<u8>,
}

/// Well-formed key material: the public key matches the secret key, the
/// output key is either the internal key itself (plain) or the committed
/// key with its tweak scalar, and the locking script pays the output key.
pub open spec fn spec_keys_wf(k: LevelKeys) -> bool {
    &&& k.internal_key@ == spec_xonly_pubkey(k.secret_key@)
    &&& match k.tweak {
        Some(t) => t@ == spec_tap_tweak(k.internal_key@) && k.output_key@ == spec_tap_output_key(
            k.internal_key@,
        ),
        None => k.output_key@ == k.internal_key@,
    }
    &&& k.script_pubkey@ == spec_p2tr_script(k.output_key@)
}

/// Derives the level's key material from the given secret-key bytes:
/// plain when `use_commitment` is false, committed (tweaked, empty script
/// tree) when it is true. Succeeds exactly when the seed is a valid
/// secret key: the derived public key is always a valid input to the
/// taproot derivation.
pub fn keys_from_seed(seed: [u8; 32], use_commitment: bool) -> (r: Result<LevelKeys, CtfError>)
    ensures
        r is Ok <==> spec_seckey_valid(seed@),
        r is Err ==> r == Err::<LevelKeys, CtfError>(CtfError::InvalidSecretKey),
        r matches Ok(k) ==> spec_keys_wf(k) && k.secret_key@ == seed@ && (k.tweak is Some
            <==> use_commitment),
{
    let internal = match xonly_pubkey_call(&seed) {
        Some(p) => p,
        None => {
            return Err(CtfError::InvalidSecretKey);
        },
    };
    if use_commitment {
        let tweak = match tap_tweak_call(&internal) {
            Some(t) => t,
            None => {
                return Err(CtfError::KeyDerivationFailed);
            },
        };
        let output = match tap_output_key_call(&internal) {
            Some(o) => o,
            None => {
                return Err(CtfError::KeyDerivationFailed);
            },
        };
        let script = p2tr_script(&output);
        Ok(
            LevelKeys {
                secret_key: seed,
                internal_key: internal,
                output_key: output,
                tweak: Some(tweak),
                script_pubkey: script,
            },
        )
    } else {
        let script = p2tr_script(&internal);
        Ok(
            LevelKeys {
                secret_key: seed,
                internal_key: internal,
                output_key: internal,
                tweak: None,
                script_pubkey: script,
            },
        )
    }
}

/// Generates a fresh random secret key and derives the level's key
/// material from it. The one failure is entropy handing back bytes that
/// are not a valid secret key — catastrophic, surfaced, never retried.
pub fn level_setup(use_commitment: bool) -> (r: Result<LevelKeys, CtfError>)
    ensures
        r is Err ==> r == Err::<LevelKeys, CtfError>(CtfError::InvalidSecretKey),
        r matches Ok(k) ==> spec_keys_wf(k) && (k.tweak is Some <==> use_commitment),
{
    let seed = random_seed_call();
    keys_from_seed(seed, use_commitment)
}

} // verus!
