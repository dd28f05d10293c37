//! The signature engine: computes the taproot key-path signature digest
//! for one input, signs it with a schnorr signature whose auxiliary
//! randomness is deliberately reduced to a single fresh byte, checks the
//! produced signature against its own key, and embeds it as the input's
//! witness.

use vstd::prelude::*;

use crate::encode::{
    lemma_ser_tx_stripped_witness_independent, serialize_tx_stripped, spec_ser_tx_stripped,
};
use crate::errors::CtfError;
use crate::keys::{spec_seckey_valid, spec_xonly_pubkey, xonly_pubkey_call};
use crate::tx::{spec_all_witnesses_empty, Transaction, TxOut};

verus! {

/// The BIP341 key-path signature digest (sighash type ALL) of the
/// transaction decoded from its consensus serialization, for the input at
/// `input_index`, against the given previous-output amounts and scripts;
/// `None` exactly when the bytes do not decode, the index is out of
/// range, or the previous-output count does not match. A function of the
/// four arguments alone.
pub uninterp spec fn spec_taproot_sighash(
    tx_bytes: Seq<u8>,
    prev_values: Seq<u64>,
    prev_scripts: Seq<Seq<u8>>,
    input_index: int,
) -> Option<Seq<u8>>;

/// The secret key obtained by adding the taproot tweak scalar to the key;
/// `None` exactly when the chain fails: the key bytes are not a valid
/// secret key, the tweak bytes are not a valid scalar, or the tweaked sum
/// is not a valid key. A function of the two arguments alone.
pub uninterp spec fn spec_tweaked_seckey(sk: Seq<u8>, tweak: Seq<u8>) -> Option<Seq<u8>>;

/// The secp256k1 curve order, big-endian.
pub open spec fn spec_curve_order_be() -> Seq<u8> {
    seq![
        0xffu8, 0xffu8, 0xffu8, 0xffu8, 0xffu8, 0xffu8, 0xffu8, 0xffu8,
        0xffu8, 0xffu8, 0xffu8, 0xffu8, 0xffu8, 0xffu8, 0xffu8, 0xfeu8,
        0xbau8, 0xaeu8, 0xdcu8, 0xe6u8, 0xafu8, 0x48u8, 0xa0u8, 0x3bu8,
        0xbfu8, 0xd2u8, 0x5eu8, 0x8cu8, 0xd0u8, 0x36u8, 0x41u8, 0x41u8,
    ]
}

/// Big-endian lexicographic order; for equal-length big-endian encodings
/// this is numeric order.
pub open spec fn spec_be_lt(a: Seq<u8>, b: Seq<u8>) -> bool
    decreases a.len(),
{
    if a.len() == 0 || b.len() == 0 {
        false
    } else if a[0] < b[0] {
        true
    } else if a[0] == b[0] {
        spec_be_lt(a.drop_first(), b.drop_first())
    } else {
        false
    }
}

/// Whether 32 bytes are a valid scalar for the curve: the big-endian
/// value lies strictly below the curve order — exactly the bytes
/// Scalar::from_be_bytes accepts.
pub open spec fn spec_tweak_scalar_ok(t: Seq<u8>) -> bool {
    t.len() == 32 && spec_be_lt(t, spec_curve_order_be())
}

/// The BIP340 schnorr signature over `digest` by `sk` with auxiliary
/// randomness `aux`; deterministic in its three arguments.
pub uninterp spec fn spec_schnorr_sig(sk: Seq<u8>, digest: Seq<u8>, aux: Seq<u8>) -> Seq<u8>;

/// Whether a 64-byte schnorr signature over `digest` verifies against an
/// x-only public key.
pub uninterp spec fn spec_schnorr_verifies(sig: Seq<u8>, digest: Seq<u8>, pubkey: Seq<u8>) -> bool;

/// Relies on rand::random for one byte of fresh randomness; nothing is
/// promised of the value.
#[verifier::external_body]
fn random_byte_call() -> u8 {
    rand::random()
}

/// Relies on secp256k1's Keypair::add_xonly_tweak (with
/// Keypair::from_seckey_slice and Scalar::from_be_bytes): the tweaked key
/// is a function of the key and tweak bytes alone; the chain fails
/// exactly when no valid tweaked key exists for them — in particular
/// whenever the tweak bytes are not below the curve order, which
/// Scalar::from_be_bytes refuses; a returned key is itself a valid secret
/// key (it comes out of a well-formed Keypair).
#[verifier::external_body]
fn tweaked_seckey_call(sk: &[u8; 32], tweak: &[u8; 32]) -> (r: Option<[u8; 32]>)
    ensures
        r is Some <==> spec_tweaked_seckey(sk@, tweak@) is Some,
        r matches Some(k) ==> spec_tweaked_seckey(sk@, tweak@) == Some(k@) && spec_seckey_valid(
            k@,
        ),
        !spec_tweak_scalar_ok(tweak@) ==> r is None,
{
    let secp = bitcoin::secp256k1::Secp256k1::new();
    let kp = bitcoin::key::Keypair::from_seckey_slice(&secp, sk).ok()?;
    let scalar = bitcoin::secp256k1::Scalar::from_be_bytes(*tweak).ok()?;
    let tweaked = kp.add_xonly_tweak(&secp, &scalar).ok()?;
    Some(tweaked.secret_key().secret_bytes())
}

/// Relies on secp256k1's sign_schnorr_with_aux_rand: BIP340 signing is
/// deterministic in the key, digest and auxiliary-randomness bytes; it
/// fails exactly when the key bytes are not a valid secret key; and a
/// freshly produced signature verifies against the signer's own x-only
/// public key (BIP340 guarantees the signature it outputs passes
/// verification).
#[verifier::external_body]
fn schnorr_sign_call(sk: &[u8; 32], digest: &[u8; 32], aux: &[u8; 32]) -> (r: Option<[u8; 64]>)
    ensures
        r is Some <==> spec_seckey_valid(sk@),
        r matches Some(s) ==> s@ == spec_schnorr_sig(sk@, digest@, aux@) && spec_schnorr_verifies(
            s@,
            digest@,
            spec_xonly_pubkey(sk@),
        ),
{
    let secp = bitcoin::secp256k1::Secp256k1::new();
    let kp = bitcoin::key::Keypair::from_seckey_slice(&secp, sk).ok()?;
    let msg = bitcoin::secp256k1::Message::from_digest(*digest);
    Some(secp.sign_schnorr_with_aux_rand(&msg, &kp, aux).serialize())
}

/// Relies on secp256k1's verify_schnorr: BIP340 verification is a
/// function of the signature, digest and public-key bytes; byte strings
/// that are not a valid signature or key never verify.
#[verifier::external_body]
fn schnorr_verify_call(sig: &[u8; 64], digest: &[u8; 32], pubkey: &[u8; 32]) -> (r: bool)
    ensures
        r == spec_schnorr_verifies(sig@, digest@, pubkey@),
{
    let secp = bitcoin::secp256k1::Secp256k1::new();
    let msg = bitcoin::secp256k1::Message::from_digest(*digest);
    match (
        bitcoin::secp256k1::schnorr::Signature::from_slice(sig),
        bitcoin::secp256k1::XOnlyPublicKey::from_slice(pubkey),
    ) {
        (Ok(s), Ok(p)) => secp.verify_schnorr(&s, &msg, &p).is_ok(),
        _ => false,
    }
}

/// Relies on bitcoin's consensus decoding and
/// SighashCache::taproot_key_spend_signature_hash: the BIP341 key-path
/// digest (sighash type ALL) is a function of the serialized transaction,
/// the previous outputs and the input index; it is undefined — and the
/// call fails — exactly when the bytes do not decode, the index is out of
/// range or the previous-output count does not match.
#[verifier::external_body]
fn taproot_sighash_call(
    tx_bytes: &Vec<u8>,
    prev_values: &Vec<u64>,
    prev_scripts: &Vec<Vec<u8>>,
    input_index: usize,
) -> (r: Option<[u8; 32]>)
    ensures
        r is Some <==> spec_taproot_sighash(
            tx_bytes@,
            prev_values@,
            prev_scripts.deep_view(),
            input_index as int,
        ) is Some,
        r matches Some(d) ==> spec_taproot_sighash(
            tx_bytes@,
            prev_values@,
            prev_scripts.deep_view(),
            input_index as int,
        ) == Some(d@),
{
    let tx: bitcoin::Transaction = bitcoin::consensus::deserialize(tx_bytes.as_slice()).ok()?;
    let prevs: Vec<bitcoin::TxOut> = prev_values.iter().zip(prev_scripts.iter()).map(
        |p: (&u64, &Vec<u8>)| bitcoin::TxOut {
            value: bitcoin::Amount::from_sat(*p.0),
            script_pubkey: bitcoin::ScriptBuf::from(p.1.clone()),
        },
    ).collect();
    let mut cache = bitcoin::sighash::SighashCache::new(tx);
    let prevouts = bitcoin::sighash::Prevouts::All(&prevs);
    let ty = bitcoin::TapSighashType::All;
    let hash = cache.taproot_key_spend_signature_hash(input_index, &prevouts, ty).ok()?;
    Some(*bitcoin::hashes::Hash::as_byte_array(&hash))
}

/// The amounts of a previous-output list, in order.
pub open spec fn spec_prevout_values(s: Seq<TxOut>) -> Seq<u64> {
    s.map_values(|o: TxOut| o.value)
}

/// The locking scripts of a previous-output list, in order.
pub open spec fn spec_prevout_scripts(s: Seq<TxOut>) -> Seq<Seq<u8>> {
    s.map_values(|o: TxOut| o.script_pubkey@)
}

/// The signature digest for one input of a transaction, as the engine
/// computes it: the BIP341 key-path digest of the transaction's
/// witness-stripped consensus serialization against the full
/// previous-output list. BIP341 reads no witness data, so the digest is
/// taken over the stripped serialization: filling in witnesses does not
/// change it.
pub open spec fn spec_input_digest(t: Transaction, prevouts: Seq<TxOut>, input_index: int) -> Option<
    Seq<u8>,
> {
    spec_taproot_sighash(
        spec_ser_tx_stripped(t),
        spec_prevout_values(prevouts),
        spec_prevout_scripts(prevouts),
        input_index,
    )
}

/// The key the engine actually signs with: the tweaked key when a tweak
/// is supplied (meaningful only when the tweak chain succeeds), the key
/// itself otherwise.
pub open spec fn spec_effective_seckey(sk: Seq<u8>, tweak: Option<&[u8; 32]>) -> Seq<u8> {
    match tweak {
        Some(t) => match spec_tweaked_seckey(sk, t@) {
            Some(k) => k,
            None => Seq::<u8>::empty(),
        },
        None => sk,
    }
}

/// The engine's auxiliary-randomness shape: 32 bytes of which the first
/// 31 are the fixed zero value, capping the fresh entropy at one byte.
pub open spec fn spec_is_weak_aux(a: Seq<u8>) -> bool {
    &&& a.len() == 32
    &&& forall|k: int| 0 <= k < 31 ==> a[k] == 0u8
}

/// A witness element as signing embeds it: the 64 signature bytes with
/// the sighash-type byte 0x01 appended.
pub open spec fn spec_sig_item(sig: Seq<u8>) -> Seq<u8> {
    sig + seq![0x01u8]
}

/// A 64-byte schnorr signature the engine can have produced over `digest`
/// with the effective key `sk_eff`: signed with some weak auxiliary
/// buffer, and verified against the key's own x-only public key.
pub open spec fn spec_valid_weak_sig(sig: Seq<u8>, sk_eff: Seq<u8>, digest: Seq<u8>) -> bool {
    &&& sig.len() == 64
    &&& exists|aux: Seq<u8>| spec_is_weak_aux(aux) && sig == spec_schnorr_sig(sk_eff, digest, aux)
    &&& spec_schnorr_verifies(sig, digest, spec_xonly_pubkey(sk_eff))
}

/// Two inputs that reference the same prior output the same way: only the
/// witness may differ.
pub open spec fn spec_same_input_ref(a: crate::tx::TxIn, b: crate::tx::TxIn) -> bool {
    &&& a.txid@ == b.txid@
    &&& a.vout == b.vout
    &&& a.script_sig@ == b.script_sig@
    &&& a.sequence == b.sequence
}

/// `new_t` is `old_t` with `item` appended to the witness of the input at
/// `idx` and nothing else changed.
pub open spec fn spec_witness_appended(
    new_t: Transaction,
    old_t: Transaction,
    idx: int,
    item: Seq<u8>,
) -> bool {
    &&& new_t.version == old_t.version
    &&& new_t.lock_time == old_t.lock_time
    &&& new_t.outputs == old_t.outputs
    &&& new_t.inputs@.len() == old_t.inputs@.len()
    &&& forall|j: int|
        0 <= j < old_t.inputs@.len() && j != idx ==> new_t.inputs@[j] == old_t.inputs@[j]
    &&& spec_same_input_ref(new_t.inputs@[idx], old_t.inputs@[idx])
    &&& new_t.inputs@[idx].witness.deep_view() == old_t.inputs@[idx].witness.deep_view().push(item)
}

/// `new_t` is `old_t` with witnesses possibly rewritten: versions,
/// lock-times, outputs and every input's prior-output reference agree.
pub open spec fn spec_tx_shape_preserved(new_t: Transaction, old_t: Transaction) -> bool {
    &&& new_t.version == old_t.version
    &&& new_t.lock_time == old_t.lock_time
    &&& new_t.outputs == old_t.outputs
    &&& new_t.inputs@.len() == old_t.inputs@.len()
    &&& forall|j: int|
        0 <= j < old_t.inputs@.len() ==> spec_same_input_ref(
            #[trigger] new_t.inputs@[j],
            old_t.inputs@[j],
        )
}

/// Law (digest stability): the signature digest reads only the
/// witness-stripped serialization, so any change that preserves the
/// transaction's shape — such as signing filling in witnesses — leaves
/// every input's digest unchanged.
pub proof fn lemma_digest_ignores_witnesses(
    new_t: Transaction,
    old_t: Transaction,
    prevouts: Seq<TxOut>,
    input_index: int,
)
    requires
        spec_tx_shape_preserved(new_t, old_t),
    ensures
        spec_input_digest(new_t, prevouts, input_index) == spec_input_digest(
            old_t,
            prevouts,
            input_index,
        ),
{
    assert forall|j: int| 0 <= j < new_t.inputs@.len() implies {
        &&& (#[trigger] new_t.inputs@[j]).txid@ == old_t.inputs@[j].txid@
        &&& new_t.inputs@[j].vout == old_t.inputs@[j].vout
        &&& new_t.inputs@[j].script_sig@ == old_t.inputs@[j].script_sig@
        &&& new_t.inputs@[j].sequence == old_t.inputs@[j].sequence
    } by {
        assert(spec_same_input_ref(new_t.inputs@[j], old_t.inputs@[j]));
    }
    lemma_ser_tx_stripped_witness_independent(new_t, old_t);
}

/// Every input of `new_t` carries exactly one witness element: a
/// signature the engine produced over that input's digest of `old_t`
/// (which equals the signed transaction's own digest, since witnesses do
/// not enter it), with the sighash-type byte appended.
pub open spec fn spec_fully_signed(
    new_t: Transaction,
    old_t: Transaction,
    prevouts: Seq<TxOut>,
    sk_eff: Seq<u8>,
) -> bool {
    &&& spec_tx_shape_preserved(new_t, old_t)
    &&& forall|j: int|
        0 <= j < new_t.inputs@.len() ==> {
            let w = (#[trigger] new_t.inputs@[j]).witness.deep_view();
            &&& w.len() == 1
            &&& exists|sig: Seq<u8>|
                (spec_input_digest(old_t, prevouts, j) matches Some(d) && spec_valid_weak_sig(
                    sig,
                    sk_eff,
                    d,
                )) && w[0] == spec_sig_item(sig)
        }
}

/// The witness shape signing leaves behind: every input carries exactly
/// one witness element of 65 bytes — a 64-byte schnorr signature with the
/// sighash-type byte 0x01 appended.
pub open spec fn spec_witnesses_signed_shape(t: Transaction) -> bool {
    forall|j: int|
        0 <= j < t.inputs@.len() ==> {
            let w = (#[trigger] t.inputs@[j]).witness.deep_view();
            &&& w.len() == 1
            &&& w[0].len() == 65
            &&& w[0][64] == 0x01u8
        }
}

/// Law (witness shape): after signing, each signed input's witness holds
/// exactly one element, a 65-byte value made of the 64-byte schnorr
/// signature followed by the sighash-type byte.
pub proof fn lemma_witness_shape(
    new_t: Transaction,
    old_t: Transaction,
    prevouts: Seq<TxOut>,
    sk_eff: Seq<u8>,
)
    requires
        spec_fully_signed(new_t, old_t, prevouts, sk_eff),
    ensures
        spec_witnesses_signed_shape(new_t),
{
    assert forall|j: int| 0 <= j < new_t.inputs@.len() implies {
        let w = (#[trigger] new_t.inputs@[j]).witness.deep_view();
        &&& w.len() == 1
        &&& w[0].len() == 65
        &&& w[0][64] == 0x01u8
    } by {
        let w = new_t.inputs@[j].witness.deep_view();
        let sig = choose|sig: Seq<u8>|
            (spec_input_digest(old_t, prevouts, j) matches Some(d) && spec_valid_weak_sig(
                sig,
                sk_eff,
                d,
            )) && w[0] == spec_sig_item(sig);
        match spec_input_digest(old_t, prevouts, j) {
            Some(d) => {
                assert(spec_valid_weak_sig(sig, sk_eff, d));
                assert(sig.len() == 64);
            },
            None => {
                assert(false);
            },
        }
        assert(spec_sig_item(sig).len() == 65);
        assert(spec_sig_item(sig)[64] == 0x01u8);
    }
}

/// Draws the engine's auxiliary randomness: a 32-byte buffer whose first
/// 31 bytes are always zero and whose final byte alone is fresh.
pub fn weak_aux_rand() -> (r: [u8; 32])
    ensures
        spec_is_weak_aux(r@),
{
    let mut aux: [u8; 32] = [0u8; 32];
    let b = random_byte_call();
    aux[31] = b;
    aux
}

/// Law: any two auxiliary-randomness buffers the engine draws agree on
/// their leading 31 bytes, which are the fixed zero value; only the final
/// byte can differ between two signing calls.
pub proof fn lemma_weak_aux_only_last_byte_differs(a: Seq<u8>, b: Seq<u8>)
    requires
        spec_is_weak_aux(a),
        spec_is_weak_aux(b),
    ensures
        forall|k: int| 0 <= k < 31 ==> a[k] == b[k] && a[k] == 0u8,
{
}

/// Computes the signature digest for the input at `input_index`, checking
/// first that the previous-output list has exactly one entry per input
/// and that the index refers to an input. Succeeds exactly when both
/// checks pass and the digest is defined for the stripped serialization.
pub fn compute_input_digest(
    transaction: &Transaction,
    prevouts: &Vec<TxOut>,
    input_index: usize,
) -> (r: Result<[u8; 32], CtfError>)
    ensures
        r == Err::<[u8; 32], CtfError>(CtfError::PrevoutCountMismatch) <==> prevouts@.len()
            != transaction.inputs@.len(),
        r == Err::<[u8; 32], CtfError>(CtfError::InputIndexOutOfRange) <==> (prevouts@.len()
            == transaction.inputs@.len() && input_index >= transaction.inputs@.len()),
        r == Err::<[u8; 32], CtfError>(CtfError::SighashFailed) <==> (prevouts@.len()
            == transaction.inputs@.len() && input_index < transaction.inputs@.len()
            && spec_input_digest(*transaction, prevouts@, input_index as int) is None),
        r is Ok <==> (prevouts@.len() == transaction.inputs@.len() && input_index
            < transaction.inputs@.len() && spec_input_digest(
            *transaction,
            prevouts@,
            input_index as int,
        ) is Some),
        r matches Ok(d) ==> spec_input_digest(*transaction, prevouts@, input_index as int) == Some(
            d@,
        ),
{
    if prevouts.len() != transaction.inputs.len() {
        return Err(CtfError::PrevoutCountMismatch);
    }
    if input_index >= transaction.inputs.len() {
        return Err(CtfError::InputIndexOutOfRange);
    }
    let tx_bytes = serialize_tx_stripped(transaction);
    let mut values: Vec<u64> = Vec::new();
    let mut scripts: Vec<Vec<u8>> = Vec::new();
    let mut i: usize = 0;
    while i < prevouts.len()
        invariant
            i <= prevouts@.len(),
            values@.len() == i,
            scripts@.len() == i,
            forall|j: int| 0 <= j < i ==> #[trigger] values@[j] == prevouts@[j].value,
            forall|j: int| 0 <= j < i ==> (#[trigger] scripts@[j])@ == prevouts@[j].script_pubkey@,
        decreases prevouts@.len() - i,
    {
        values.push(prevouts[i].value);
        let s = prevouts[i].script_pubkey.clone();
        proof {
            assert(s@ =~= prevouts@[i as int].script_pubkey@);
        }
        scripts.push(s);
        i = i + 1;
    }
    proof {
        assert(values@ =~= spec_prevout_values(prevouts@));
        assert forall|j: int|
            0 <= j < prevouts@.len() implies scripts.deep_view()[j] == spec_prevout_scripts(
            prevouts@,
        )[j] by {
            assert(scripts.deep_view()[j] == scripts@[j].deep_view());
            assert(scripts@[j].deep_view() =~= scripts@[j]@);
        }
        assert(scripts.deep_view() =~= spec_prevout_scripts(prevouts@));
    }
    match taproot_sighash_call(&tx_bytes, &values, &scripts, input_index) {
        Some(d) => Ok(d),
        None => Err(CtfError::SighashFailed),
    }
}

/// Signs the given digest with the effective key and appends the witness
/// element to the input at `input_index`: tweak application, weak
/// auxiliary randomness, schnorr signing, the local verification
/// self-check, and the witness append. Succeeds exactly when the key is a
/// valid secret key and, if a tweak is supplied, the tweak chain
/// succeeds; the signing and self-check stages cannot fail on a valid
/// effective key.
fn attach_input_signature(
    transaction: &mut Transaction,
    input_index: usize,
    digest: &[u8; 32],
    private_key: &[u8; 32],
    tweak: Option<&[u8; 32]>,
) -> (r: Result<(), CtfError>)
    requires
        input_index < old(transaction).inputs@.len(),
    ensures
        r == Err::<(), CtfError>(CtfError::InvalidSecretKey) <==> !spec_seckey_valid(
            private_key@,
        ),
        r == Err::<(), CtfError>(CtfError::InvalidTweak) <==> (spec_seckey_valid(private_key@)
            && (tweak matches Some(t) && spec_tweaked_seckey(private_key@, t@) is None)),
        (spec_seckey_valid(private_key@) && (tweak matches Some(t) && !spec_tweak_scalar_ok(t@)))
            ==> r == Err::<(), CtfError>(CtfError::InvalidTweak),
        tweak matches Some(t) ==> (r is Ok ==> spec_tweak_scalar_ok(t@)),
        r is Ok <==> (spec_seckey_valid(private_key@) && (tweak matches Some(t)
            ==> spec_tweaked_seckey(private_key@, t@) is Some)),
        r is Err ==> *final(transaction) == *old(transaction),
        r is Ok ==> exists|sig: Seq<u8>|
            spec_valid_weak_sig(sig, spec_effective_seckey(private_key@, tweak), digest@)
                && spec_witness_appended(
                *final(transaction),
                *old(transaction),
                input_index as int,
                spec_sig_item(sig),
            ),
{
    if xonly_pubkey_call(private_key).is_none() {
        return Err(CtfError::InvalidSecretKey);
    }
    let eff_key: [u8; 32] = match tweak {
        Some(t) => {
            match tweaked_seckey_call(private_key, t) {
                Some(k) => k,
                None => {
                    return Err(CtfError::InvalidTweak);
                },
            }
        },
        None => *private_key,
    };
    proof {
        assert(spec_seckey_valid(eff_key@));
        assert(eff_key@ == spec_effective_seckey(private_key@, tweak));
    }
    let aux = weak_aux_rand();
    let sig = match schnorr_sign_call(&eff_key, digest, &aux) {
        Some(s) => s,
        None => {
            // unreachable: the effective key is a valid secret key
            return Err(CtfError::SigningFailed);
        },
    };
    let pubkey = match xonly_pubkey_call(&eff_key) {
        Some(p) => p,
        None => {
            // unreachable: the effective key is a valid secret key
            return Err(CtfError::SigningFailed);
        },
    };
    if !schnorr_verify_call(&sig, digest, &pubkey) {
        // unreachable per the signing contract; kept as the run-time
        // defense against silent corruption
        return Err(CtfError::SignatureSelfCheckFailed);
    }
    let mut item: Vec<u8> = Vec::new();
    let mut i: usize = 0;
    while i < 64
        invariant
            i <= 64,
            item@ == sig@.take(i as int),
        decreases 64 - i,
    {
        item.push(sig[i]);
        proof {
            assert(sig@.take(i + 1) =~= sig@.take(i as int).push(sig@[i as int]));
        }
        i = i + 1;
    }
    item.push(0x01);
    proof {
        assert(sig@.take(64) =~= sig@);
        assert(item@ =~= spec_sig_item(sig@));
    }
    let ghost pre_tx = *transaction;
    let mut input = transaction.inputs.remove(input_index);
    let ghost pre_witness = input.witness.deep_view();
    input.witness.push(item);
    proof {
        assert(input.witness.deep_view() =~= pre_witness.push(item@)) by {
            assert(input.witness@.len() == pre_witness.len() + 1);
            assert(forall|k: int|
                0 <= k < pre_witness.len() ==> input.witness.deep_view()[k] == pre_witness[k]);
            assert(input.witness.deep_view()[pre_witness.len() as int] =~= item@);
        }
    }
    transaction.inputs.insert(input_index, input);
    proof {
        let old_ins = pre_tx.inputs@;
        let new_ins = transaction.inputs@;
        assert(new_ins =~= old_ins.remove(input_index as int).insert(input_index as int, input));
        assert(new_ins.len() == old_ins.len());
        assert(forall|j: int|
            0 <= j < old_ins.len() && j != input_index as int ==> new_ins[j] == old_ins[j]);
        assert(new_ins[input_index as int] == input);
        assert(spec_witness_appended(
            *transaction,
            pre_tx,
            input_index as int,
            spec_sig_item(sig@),
        ));
        assert(spec_is_weak_aux(aux@) && sig@ == spec_schnorr_sig(
            spec_effective_seckey(private_key@, tweak),
            digest@,
            aux@,
        ));
        assert(spec_valid_weak_sig(sig@, spec_effective_seckey(private_key@, tweak), digest@));
    }
    Ok(())
}

/// Creates a signature for the input at `input_idx` of the transaction,
/// optionally applying a tweak to the private key before signing, and
/// appends it (with the sighash-type byte) as a witness element. The full
/// previous-output list is required: a count mismatch is refused, never
/// silently signed over. Succeeds exactly when the checks pass, the
/// digest is defined, the key is valid, and any supplied tweak applies.
pub fn add_signature(
    transaction: &mut Transaction,
    input_idx: usize,
    prevouts: &Vec<TxOut>,
    private_key: &[u8; 32],
    tweak: Option<&[u8; 32]>,
) -> (r: Result<(), CtfError>)
    ensures
        r == Err::<(), CtfError>(CtfError::PrevoutCountMismatch) <==> prevouts@.len() != old(
            transaction,
        ).inputs@.len(),
        r == Err::<(), CtfError>(CtfError::InputIndexOutOfRange) <==> (prevouts@.len() == old(
            transaction,
        ).inputs@.len() && input_idx >= old(transaction).inputs@.len()),
        r == Err::<(), CtfError>(CtfError::SighashFailed) <==> (prevouts@.len() == old(
            transaction,
        ).inputs@.len() && input_idx < old(transaction).inputs@.len() && spec_input_digest(
            *old(transaction),
            prevouts@,
            input_idx as int,
        ) is None),
        r == Err::<(), CtfError>(CtfError::InvalidSecretKey) <==> (prevouts@.len() == old(
            transaction,
        ).inputs@.len() && input_idx < old(transaction).inputs@.len() && spec_input_digest(
            *old(transaction),
            prevouts@,
            input_idx as int,
        ) is Some && !spec_seckey_valid(private_key@)),
        r == Err::<(), CtfError>(CtfError::InvalidTweak) <==> (prevouts@.len() == old(
            transaction,
        ).inputs@.len() && input_idx < old(transaction).inputs@.len() && spec_input_digest(
            *old(transaction),
            prevouts@,
            input_idx as int,
        ) is Some && spec_seckey_valid(private_key@) && (tweak matches Some(t)
            && spec_tweaked_seckey(private_key@, t@) is None)),
        (prevouts@.len() == old(transaction).inputs@.len() && input_idx < old(
            transaction,
        ).inputs@.len() && spec_input_digest(*old(transaction), prevouts@, input_idx as int)
            is Some && spec_seckey_valid(private_key@) && (tweak matches Some(t)
            && !spec_tweak_scalar_ok(t@))) ==> r == Err::<(), CtfError>(CtfError::InvalidTweak),
        r is Ok <==> (prevouts@.len() == old(transaction).inputs@.len() && input_idx < old(
            transaction,
        ).inputs@.len() && spec_input_digest(*old(transaction), prevouts@, input_idx as int)
            is Some && spec_seckey_valid(private_key@) && (tweak matches Some(t)
            ==> spec_tweaked_seckey(private_key@, t@) is Some)),
        r is Err ==> *final(transaction) == *old(transaction),
        r is Ok ==> exists|sig: Seq<u8>|
            (spec_input_digest(*old(transaction), prevouts@, input_idx as int) matches Some(d)
                && spec_valid_weak_sig(sig, spec_effective_seckey(private_key@, tweak), d))
                && spec_witness_appended(
                *final(transaction),
                *old(transaction),
                input_idx as int,
                spec_sig_item(sig),
            ),
{
    let digest = match compute_input_digest(transaction, prevouts, input_idx) {
        Ok(d) => d,
        Err(e) => {
            return Err(e);
        },
    };
    attach_input_signature(transaction, input_idx, &digest, private_key, tweak)
}

proof fn lemma_signed_prefix_step(
    new_t: Transaction,
    pre_t: Transaction,
    old_t: Transaction,
    prevouts: Seq<TxOut>,
    sk_eff: Seq<u8>,
    k: int,
    sig: Seq<u8>,
)
    requires
        0 <= k < old_t.inputs@.len(),
        pre_t.inputs@.len() == old_t.inputs@.len(),
        spec_all_witnesses_empty(old_t),
        forall|j: int|
            0 <= j < k ==> {
                let w = (#[trigger] pre_t.inputs@[j]).witness.deep_view();
                &&& spec_same_input_ref(pre_t.inputs@[j], old_t.inputs@[j])
                &&& w.len() == 1
                &&& exists|sg: Seq<u8>|
                    (spec_input_digest(old_t, prevouts, j) matches Some(d) && spec_valid_weak_sig(
                        sg,
                        sk_eff,
                        d,
                    )) && w[0] == spec_sig_item(sg)
            },
        forall|j: int| k <= j < old_t.inputs@.len() ==> pre_t.inputs@[j] == old_t.inputs@[j],
        (spec_input_digest(old_t, prevouts, k) matches Some(d) && spec_valid_weak_sig(
            sig,
            sk_eff,
            d,
        )),
        spec_witness_appended(new_t, pre_t, k, spec_sig_item(sig)),
    ensures
        new_t.inputs@.len() == old_t.inputs@.len(),
        forall|j: int|
            0 <= j < k + 1 ==> {
                let w = (#[trigger] new_t.inputs@[j]).witness.deep_view();
                &&& spec_same_input_ref(new_t.inputs@[j], old_t.inputs@[j])
                &&& w.len() == 1
                &&& exists|sg: Seq<u8>|
                    (spec_input_digest(old_t, prevouts, j) matches Some(d) && spec_valid_weak_sig(
                        sg,
                        sk_eff,
                        d,
                    )) && w[0] == spec_sig_item(sg)
            },
        forall|j: int| k + 1 <= j < old_t.inputs@.len() ==> new_t.inputs@[j] == old_t.inputs@[j],
{
    assert(pre_t.inputs@[k].witness@.len() == 0);
    assert(pre_t.inputs@[k].witness.deep_view().len() == 0);
    assert(new_t.inputs@[k].witness.deep_view() =~= pre_t.inputs@[k].witness.deep_view().push(
        spec_sig_item(sig),
    ));
    assert(new_t.inputs@[k].witness.deep_view().len() == 1);
    assert(new_t.inputs@[k].witness.deep_view()[0] == spec_sig_item(sig));
    assert forall|j: int| 0 <= j < k + 1 implies {
        let w = (#[trigger] new_t.inputs@[j]).witness.deep_view();
        &&& spec_same_input_ref(new_t.inputs@[j], old_t.inputs@[j])
        &&& w.len() == 1
        &&& exists|sg: Seq<u8>|
            (spec_input_digest(old_t, prevouts, j) matches Some(d) && spec_valid_weak_sig(
                sg,
                sk_eff,
                d,
            )) && w[0] == spec_sig_item(sg)
    } by {
        if j < k {
            assert(new_t.inputs@[j] == pre_t.inputs@[j]);
        } else {
            assert(j == k);
            assert(spec_same_input_ref(new_t.inputs@[k], pre_t.inputs@[k]));
            assert((spec_input_digest(old_t, prevouts, k) matches Some(d) && spec_valid_weak_sig(
                sig,
                sk_eff,
                d,
            )) && new_t.inputs@[k].witness.deep_view()[0] == spec_sig_item(sig));
        }
    }
}

/// Signs every input of the not-yet-signed transaction: all digests are
/// computed against the unsigned transaction first, then each input
/// receives its single witness element in order. Succeeds exactly when
/// the previous-output list matches, every input's digest is defined, and
/// (if there is an input to sign) the key is valid and any supplied tweak
/// applies.
#[verifier::rlimit(100)]
#[verifier::spinoff_prover]
pub fn sign_all_inputs(
    transaction: &mut Transaction,
    prevouts: &Vec<TxOut>,
    private_key: &[u8; 32],
    tweak: Option<&[u8; 32]>,
) -> (r: Result<(), CtfError>)
    requires
        spec_all_witnesses_empty(*old(transaction)),
    ensures
        r == Err::<(), CtfError>(CtfError::PrevoutCountMismatch) <==> prevouts@.len() != old(
            transaction,
        ).inputs@.len(),
        r == Err::<(), CtfError>(CtfError::SighashFailed) <==> (prevouts@.len() == old(
            transaction,
        ).inputs@.len() && exists|j: int|
            0 <= j < old(transaction).inputs@.len() && (#[trigger] spec_input_digest(
                *old(transaction),
                prevouts@,
                j,
            )) is None),
        r == Err::<(), CtfError>(CtfError::InvalidSecretKey) <==> (prevouts@.len() == old(
            transaction,
        ).inputs@.len() && old(transaction).inputs@.len() >= 1 && (forall|j: int|
            0 <= j < old(transaction).inputs@.len() ==> (#[trigger] spec_input_digest(
                *old(transaction),
                prevouts@,
                j,
            )) is Some) && !spec_seckey_valid(private_key@)),
        r == Err::<(), CtfError>(CtfError::InvalidTweak) <==> (prevouts@.len() == old(
            transaction,
        ).inputs@.len() && old(transaction).inputs@.len() >= 1 && (forall|j: int|
            0 <= j < old(transaction).inputs@.len() ==> (#[trigger] spec_input_digest(
                *old(transaction),
                prevouts@,
                j,
            )) is Some) && spec_seckey_valid(private_key@) && (tweak matches Some(t)
            && spec_tweaked_seckey(private_key@, t@) is None)),
        (prevouts@.len() == old(transaction).inputs@.len() && old(transaction).inputs@.len() >= 1
            && (forall|j: int|
            0 <= j < old(transaction).inputs@.len() ==> (#[trigger] spec_input_digest(
                *old(transaction),
                prevouts@,
                j,
            )) is Some) && spec_seckey_valid(private_key@) && (tweak matches Some(t)
            && !spec_tweak_scalar_ok(t@))) ==> r == Err::<(), CtfError>(CtfError::InvalidTweak),
        r is Ok <==> (prevouts@.len() == old(transaction).inputs@.len() && (forall|j: int|
            0 <= j < old(transaction).inputs@.len() ==> (#[trigger] spec_input_digest(
                *old(transaction),
                prevouts@,
                j,
            )) is Some) && (old(transaction).inputs@.len() == 0 || (spec_seckey_valid(private_key@)
            && (tweak matches Some(t) ==> spec_tweaked_seckey(private_key@, t@) is Some)))),
        r is Err ==> spec_tx_shape_preserved(*final(transaction), *old(transaction)),
        r is Ok ==> spec_fully_signed(
            *final(transaction),
            *old(transaction),
            prevouts@,
            spec_effective_seckey(private_key@, tweak),
        ),
{
    if prevouts.len() != transaction.inputs.len() {
        return Err(CtfError::PrevoutCountMismatch);
    }
    let n = transaction.inputs.len();
    let mut digests: Vec<[u8; 32]> = Vec::new();
    let mut i: usize = 0;
    while i < n
        invariant
            i <= n,
            n == old(transaction).inputs@.len(),
            prevouts@.len() == n,
            *transaction == *old(transaction),
            digests@.len() == i,
            forall|j: int|
                0 <= j < i ==> (#[trigger] spec_input_digest(*old(transaction), prevouts@, j))
                    == Some(digests@[j]@),
        decreases n - i,
    {
        let d = match compute_input_digest(transaction, prevouts, i) {
            Ok(d) => d,
            Err(e) => {
                proof {
                    assert(e == CtfError::SighashFailed);
                    assert(spec_input_digest(*old(transaction), prevouts@, i as int) is None);
                    assert(spec_tx_shape_preserved(*transaction, *old(transaction)));
                }
                return Err(e);
            },
        };
        digests.push(d);
        i = i + 1;
    }
    let mut k: usize = 0;
    while k < n
        invariant
            k <= n,
            n == old(transaction).inputs@.len(),
            prevouts@.len() == n,
            digests@.len() == n,
            forall|j: int|
                0 <= j < n ==> (#[trigger] spec_input_digest(*old(transaction), prevouts@, j))
                    == Some(digests@[j]@),
            spec_all_witnesses_empty(*old(transaction)),
            transaction.version == old(transaction).version,
            transaction.lock_time == old(transaction).lock_time,
            transaction.outputs == old(transaction).outputs,
            transaction.inputs@.len() == n,
            forall|j: int| k <= j < n ==> transaction.inputs@[j] == old(transaction).inputs@[j],
            k >= 1 ==> spec_seckey_valid(private_key@) && (tweak matches Some(t)
                ==> spec_tweaked_seckey(private_key@, t@) is Some && spec_tweak_scalar_ok(t@)),
            forall|j: int|
                0 <= j < k ==> {
                    let w = (#[trigger] transaction.inputs@[j]).witness.deep_view();
                    &&& spec_same_input_ref(transaction.inputs@[j], old(transaction).inputs@[j])
                    &&& w.len() == 1
                    &&& exists|sig: Seq<u8>|
                        (spec_input_digest(*old(transaction), prevouts@, j) matches Some(d)
                            && spec_valid_weak_sig(
                            sig,
                            spec_effective_seckey(private_key@, tweak),
                            d,
                        )) && w[0] == spec_sig_item(sig)
                },
        decreases n - k,
    {
        let ghost pre_tx = *transaction;
        let d = digests[k];
        proof {
            assert(spec_input_digest(*old(transaction), prevouts@, k as int) == Some(d@));
        }
        match attach_input_signature(transaction, k, &d, private_key, tweak) {
            Ok(u) => u,
            Err(e) => {
                proof {
                    assert(spec_tx_shape_preserved(*transaction, *old(transaction)));
                }
                return Err(e);
            },
        };
        proof {
            let sig = choose|sig: Seq<u8>|
                spec_valid_weak_sig(sig, spec_effective_seckey(private_key@, tweak), d@)
                    && spec_witness_appended(*transaction, pre_tx, k as int, spec_sig_item(sig));
            lemma_signed_prefix_step(
                *transaction,
                pre_tx,
                *old(transaction),
                prevouts@,
                spec_effective_seckey(private_key@, tweak),
                k as int,
                sig,
            );
        }
        k = k + 1;
    }
    proof {
        let skeff = spec_effective_seckey(private_key@, tweak);
        assert(spec_tx_shape_preserved(*transaction, *old(transaction)));
        assert forall|j: int| 0 <= j < transaction.inputs@.len() implies {
            let w = (#[trigger] transaction.inputs@[j]).witness.deep_view();
            &&& w.len() == 1
            &&& exists|sig: Seq<u8>|
                (spec_input_digest(*old(transaction), prevouts@, j) matches Some(d)
                    && spec_valid_weak_sig(sig, skeff, d)) && w[0] == spec_sig_item(sig)
        } by {
            assert(0 <= j < n as int);
        }
        assert(spec_fully_signed(*transaction, *old(transaction), prevouts@, skeff));
    }
    Ok(())
}

/// Checks the witness signature of the input at `input_index` against an
/// arbitrary x-only public key, recomputing that input's digest — which,
/// being taken over the witness-stripped serialization, is the very
/// digest signing used. The witness must hold exactly the single 65-byte
/// element signing produces.
pub fn verify_input_signature(
    transaction: &Transaction,
    prevouts: &Vec<TxOut>,
    input_index: usize,
    pubkey: &[u8; 32],
) -> (r: Result<bool, CtfError>)
    ensures
        r == Err::<bool, CtfError>(CtfError::PrevoutCountMismatch) <==> prevouts@.len()
            != transaction.inputs@.len(),
        r == Err::<bool, CtfError>(CtfError::InputIndexOutOfRange) <==> (prevouts@.len()
            == transaction.inputs@.len() && input_index >= transaction.inputs@.len()),
        r == Err::<bool, CtfError>(CtfError::SighashFailed) <==> (prevouts@.len()
            == transaction.inputs@.len() && input_index < transaction.inputs@.len()
            && spec_input_digest(*transaction, prevouts@, input_index as int) is None),
        r == Err::<bool, CtfError>(CtfError::MalformedWitness) <==> (prevouts@.len()
            == transaction.inputs@.len() && input_index < transaction.inputs@.len()
            && spec_input_digest(*transaction, prevouts@, input_index as int) is Some && !{
            let w = transaction.inputs@[input_index as int].witness.deep_view();
            w.len() == 1 && w[0].len() == 65
        }),
        r is Ok <==> (prevouts@.len() == transaction.inputs@.len() && input_index
            < transaction.inputs@.len() && spec_input_digest(
            *transaction,
            prevouts@,
            input_index as int,
        ) is Some && {
            let w = transaction.inputs@[input_index as int].witness.deep_view();
            w.len() == 1 && w[0].len() == 65
        }),
        r matches Ok(b) ==> {
            let w = transaction.inputs@[input_index as int].witness.deep_view();
            spec_input_digest(*transaction, prevouts@, input_index as int) matches Some(d) && b
                == spec_schnorr_verifies(w[0].take(64), d, pubkey@)
        },
{
    let digest = match compute_input_digest(transaction, prevouts, input_index) {
        Ok(d) => d,
        Err(e) => {
            return Err(e);
        },
    };
    let witness = &transaction.inputs[input_index].witness;
    if witness.len() != 1 {
        return Err(CtfError::MalformedWitness);
    }
    let element = &witness[0];
    if element.len() != 65 {
        return Err(CtfError::MalformedWitness);
    }
    proof {
        assert(transaction.inputs@[input_index as int].witness.deep_view().len() == 1);
        assert(transaction.inputs@[input_index as int].witness.deep_view()[0] =~= element@);
    }
    let mut sig: [u8; 64] = [0u8; 64];
    let mut i: usize = 0;
    while i < 64
        invariant
            i <= 64,
            element@.len() == 65,
            forall|m: int| 0 <= m < i ==> sig@[m] == element@[m],
        decreases 64 - i,
    {
        sig[i] = element[i];
        i = i + 1;
    }
    proof {
        assert(sig@ =~= element@.take(64));
    }
    Ok(schnorr_verify_call(&sig, &digest, pubkey))
}

} // verus!
