//! Consensus serialization of the transaction model, together with the
//! size and virtual-size functions the fee policy is built on.

use vstd::prelude::*;

use crate::tx::{Transaction, TxIn, TxOut};

verus! {

/// Little-endian encoding of a 16-bit integer.
pub open spec fn spec_le16(x: u16) -> Seq<u8> {
    seq![(x & 0xff) as u8, ((x >> 8) & 0xff) as u8]
}

/// Little-endian encoding of a 32-bit integer.
pub open spec fn spec_le32(x: u32) -> Seq<u8> {
    seq![
        (x & 0xff) as u8,
        ((x >> 8) & 0xff) as u8,
        ((x >> 16) & 0xff) as u8,
        ((x >> 24) & 0xff) as u8,
    ]
}

/// Little-endian encoding of a 64-bit integer.
pub open spec fn spec_le64(x: u64) -> Seq<u8> {
    seq![
        (x & 0xff) as u8,
        ((x >> 8) & 0xff) as u8,
        ((x >> 16) & 0xff) as u8,
        ((x >> 24) & 0xff) as u8,
        ((x >> 32) & 0xff) as u8,
        ((x >> 40) & 0xff) as u8,
        ((x >> 48) & 0xff) as u8,
        ((x >> 56) & 0xff) as u8,
    ]
}

/// The variable-length integer encoding used for all counts and lengths.
pub open spec fn spec_varint(n: nat) -> Seq<u8> {
    if n < 0xfd {
        seq![n as u8]
    } else if n <= 0xffff {
        seq![0xfdu8] + spec_le16(n as u16)
    } else if n <= 0xffff_ffff {
        seq![0xfeu8] + spec_le32(n as u32)
    } else {
        seq![0xffu8] + spec_le64(n as u64)
    }
}

/// Serialization of one input without its witness: outpoint, unlock
/// script with length prefix, sequence.
pub open spec fn spec_ser_txin_base(i: TxIn) -> Seq<u8> {
    i.txid@ + spec_le32(i.vout) + spec_varint(i.script_sig@.len()) + i.script_sig@
        + spec_le32(i.sequence)
}

/// Serialization of one output: amount, locking script with length prefix.
pub open spec fn spec_ser_txout(o: TxOut) -> Seq<u8> {
    spec_le64(o.value) + spec_varint(o.script_pubkey@.len()) + o.script_pubkey@
}

/// Concatenated serialization of length-prefixed byte strings.
pub open spec fn spec_ser_byte_seqs(items: Seq<Seq<u8>>) -> Seq<u8>
    decreases items.len(),
{
    if items.len() == 0 {
        Seq::<u8>::empty()
    } else {
        spec_ser_byte_seqs(items.drop_last()) + spec_varint(items.last().len()) + items.last()
    }
}

/// Serialization of one witness stack: element count, then each element
/// as a length-prefixed byte string.
pub open spec fn spec_ser_witness(w: Seq<Seq<u8>>) -> Seq<u8> {
    spec_varint(w.len()) + spec_ser_byte_seqs(w)
}

/// Concatenated base serializations of the inputs.
pub open spec fn spec_ser_inputs(s: Seq<TxIn>) -> Seq<u8>
    decreases s.len(),
{
    if s.len() == 0 {
        Seq::<u8>::empty()
    } else {
        spec_ser_inputs(s.drop_last()) + spec_ser_txin_base(s.last())
    }
}

/// Concatenated serializations of the outputs.
pub open spec fn spec_ser_outputs(s: Seq<TxOut>) -> Seq<u8>
    decreases s.len(),
{
    if s.len() == 0 {
        Seq::<u8>::empty()
    } else {
        spec_ser_outputs(s.drop_last()) + spec_ser_txout(s.last())
    }
}

/// Concatenated witness-stack serializations, one per input.
pub open spec fn spec_ser_witnesses(s: Seq<TxIn>) -> Seq<u8>
    decreases s.len(),
{
    if s.len() == 0 {
        Seq::<u8>::empty()
    } else {
        spec_ser_witnesses(s.drop_last()) + spec_ser_witness(s.last().witness.deep_view())
    }
}

/// The extended (BIP141) serialization is used when some input carries a
/// witness, and also when there are no inputs at all, to avoid the
/// serialization ambiguity a zero input count would create.
pub open spec fn spec_uses_segwit(t: Transaction) -> bool {
    t.inputs@.len() == 0 || exists|j: int|
        0 <= j < t.inputs@.len() && #[trigger] t.inputs@[j].witness@.len() > 0
}

/// The legacy serialization, with all witness data stripped.
pub open spec fn spec_ser_tx_stripped(t: Transaction) -> Seq<u8> {
    spec_le32(t.version) + spec_varint(t.inputs@.len()) + spec_ser_inputs(t.inputs@)
        + spec_varint(t.outputs@.len()) + spec_ser_outputs(t.outputs@) + spec_le32(t.lock_time)
}

/// The consensus serialization of a transaction: the legacy layout, or the
/// BIP141 layout with marker, flag and witness section when required.
pub open spec fn spec_ser_tx(t: Transaction) -> Seq<u8> {
    if spec_uses_segwit(t) {
        spec_le32(t.version) + seq![0u8, 1u8] + spec_varint(t.inputs@.len())
            + spec_ser_inputs(t.inputs@) + spec_varint(t.outputs@.len())
            + spec_ser_outputs(t.outputs@) + spec_ser_witnesses(t.inputs@)
            + spec_le32(t.lock_time)
    } else {
        spec_ser_tx_stripped(t)
    }
}

/// Base size: the serialized size with witness data stripped.
pub open spec fn spec_base_size(t: Transaction) -> nat {
    spec_ser_tx_stripped(t).len()
}

/// Total size: the full serialized size.
pub open spec fn spec_total_size(t: Transaction) -> nat {
    spec_ser_tx(t).len()
}

/// BIP141 weight units: three times the base size plus the total size.
pub open spec fn spec_weight(t: Transaction) -> nat {
    3 * spec_base_size(t) + spec_total_size(t)
}

/// Virtual size: the weight divided by four, rounded up.
pub open spec fn spec_vsize(t: Transaction) -> nat {
    (spec_weight(t) + 3) / 4
}

/// Appends the little-endian bytes of a 16-bit integer.
pub fn push_le16(out: &mut Vec<u8>, x: u16)
    ensures
        final(out)@ == old(out)@ + spec_le16(x),
{
    out.push((x & 0xff) as u8);
    out.push(((x >> 8) & 0xff) as u8);
    proof {
        assert(out@ =~= old(out)@ + spec_le16(x));
    }
}

/// Appends the little-endian bytes of a 32-bit integer.
pub fn push_le32(out: &mut Vec<u8>, x: u32)
    ensures
        final(out)@ == old(out)@ + spec_le32(x),
{
    out.push((x & 0xff) as u8);
    out.push(((x >> 8) & 0xff) as u8);
    out.push(((x >> 16) & 0xff) as u8);
    out.push(((x >> 24) & 0xff) as u8);
    proof {
        assert(out@ =~= old(out)@ + spec_le32(x));
    }
}

/// Appends the little-endian bytes of a 64-bit integer.
pub fn push_le64(out: &mut Vec<u8>, x: u64)
    ensures
        final(out)@ == old(out)@ + spec_le64(x),
{
    out.push((x & 0xff) as u8);
    out.push(((x >> 8) & 0xff) as u8);
    out.push(((x >> 16) & 0xff) as u8);
    out.push(((x >> 24) & 0xff) as u8);
    out.push(((x >> 32) & 0xff) as u8);
    out.push(((x >> 40) & 0xff) as u8);
    out.push(((x >> 48) & 0xff) as u8);
    out.push(((x >> 56) & 0xff) as u8);
    proof {
        assert(out@ =~= old(out)@ + spec_le64(x));
    }
}

/// Appends the variable-length encoding of `n`.
pub fn push_varint(out: &mut Vec<u8>, n: u64)
    ensures
        final(out)@ == old(out)@ + spec_varint(n as nat),
{
    if n < 0xfd {
        out.push(n as u8);
        proof {
            assert(out@ =~= old(out)@ + spec_varint(n as nat));
        }
    } else if n <= 0xffff {
        out.push(0xfd);
        push_le16(out, n as u16);
        proof {
            assert(out@ =~= old(out)@ + spec_varint(n as nat));
        }
    } else if n <= 0xffff_ffff {
        out.push(0xfe);
        push_le32(out, n as u32);
        proof {
            assert(out@ =~= old(out)@ + spec_varint(n as nat));
        }
    } else {
        out.push(0xff);
        push_le64(out, n);
        proof {
            assert(out@ =~= old(out)@ + spec_varint(n as nat));
        }
    }
}

/// Appends a byte string as it stands, without a length prefix.
pub fn push_bytes(out: &mut Vec<u8>, bytes: &Vec<u8>)
    ensures
        final(out)@ == old(out)@ + bytes@,
{
    let mut i: usize = 0;
    while i < bytes.len()
        invariant
            i <= bytes@.len(),
            out@ == old(out)@ + bytes@.take(i as int),
        decreases bytes@.len() - i,
    {
        out.push(bytes[i]);
        proof {
            assert(bytes@.take(i + 1) =~= bytes@.take(i as int).push(bytes@[i as int]));
            assert(out@ =~= old(out)@ + bytes@.take(i + 1));
        }
        i = i + 1;
    }
    proof {
        assert(bytes@.take(bytes@.len() as int) =~= bytes@);
    }
}

/// Appends a fixed 32-byte string, such as a transaction id.
pub fn push_bytes32(out: &mut Vec<u8>, bytes: &[u8; 32])
    ensures
        final(out)@ == old(out)@ + bytes@,
{
    let mut i: usize = 0;
    while i < 32
        invariant
            i <= 32,
            out@ == old(out)@ + bytes@.take(i as int),
        decreases 32 - i,
    {
        out.push(bytes[i]);
        proof {
            assert(bytes@.take(i + 1) =~= bytes@.take(i as int).push(bytes@[i as int]));
            assert(out@ =~= old(out)@ + bytes@.take(i + 1));
        }
        i = i + 1;
    }
    proof {
        assert(bytes@.take(32) =~= bytes@);
    }
}

/// Whether the transaction takes the extended (BIP141) serialization.
pub fn uses_segwit(t: &Transaction) -> (r: bool)
    ensures
        r == spec_uses_segwit(*t),
{
    if t.inputs.len() == 0 {
        return true;
    }
    let mut i: usize = 0;
    while i < t.inputs.len()
        invariant
            i <= t.inputs@.len(),
            forall|j: int| 0 <= j < i ==> #[trigger] t.inputs@[j].witness@.len() == 0,
        decreases t.inputs@.len() - i,
    {
        if t.inputs[i].witness.len() > 0 {
            return true;
        }
        i = i + 1;
    }
    false
}

proof fn lemma_ser_inputs_step(s: Seq<TxIn>, i: int)
    requires
        0 <= i < s.len(),
    ensures
        spec_ser_inputs(s.take(i + 1)) == spec_ser_inputs(s.take(i)) + spec_ser_txin_base(s[i]),
{
    assert(s.take(i + 1).drop_last() =~= s.take(i));
    assert(s.take(i + 1).last() == s[i]);
}

proof fn lemma_ser_outputs_step(s: Seq<TxOut>, i: int)
    requires
        0 <= i < s.len(),
    ensures
        spec_ser_outputs(s.take(i + 1)) == spec_ser_outputs(s.take(i)) + spec_ser_txout(s[i]),
{
    assert(s.take(i + 1).drop_last() =~= s.take(i));
    assert(s.take(i + 1).last() == s[i]);
}

proof fn lemma_ser_witnesses_step(s: Seq<TxIn>, i: int)
    requires
        0 <= i < s.len(),
    ensures
        spec_ser_witnesses(s.take(i + 1)) == spec_ser_witnesses(s.take(i)) + spec_ser_witness(
            s[i].witness.deep_view(),
        ),
{
    assert(s.take(i + 1).drop_last() =~= s.take(i));
    assert(s.take(i + 1).last() == s[i]);
}

proof fn lemma_ser_byte_seqs_step(s: Seq<Seq<u8>>, i: int)
    requires
        0 <= i < s.len(),
    ensures
        spec_ser_byte_seqs(s.take(i + 1)) == spec_ser_byte_seqs(s.take(i)) + spec_varint(
            s[i].len(),
        ) + s[i],
{
    assert(s.take(i + 1).drop_last() =~= s.take(i));
    assert(s.take(i + 1).last() == s[i]);
}

/// Appends the base serialization of every input, in order.
fn push_inputs(out: &mut Vec<u8>, t: &Transaction)
    ensures
        final(out)@ == old(out)@ + spec_ser_inputs(t.inputs@),
{
    let mut i: usize = 0;
    while i < t.inputs.len()
        invariant
            i <= t.inputs@.len(),
            out@ == old(out)@ + spec_ser_inputs(t.inputs@.take(i as int)),
        decreases t.inputs@.len() - i,
    {
        let ghost pre = out@;
        push_bytes32(out, &t.inputs[i].txid);
        push_le32(out, t.inputs[i].vout);
        push_varint(out, t.inputs[i].script_sig.len() as u64);
        push_bytes(out, &t.inputs[i].script_sig);
        push_le32(out, t.inputs[i].sequence);
        proof {
            assert(out@ =~= pre + spec_ser_txin_base(t.inputs@[i as int]));
            lemma_ser_inputs_step(t.inputs@, i as int);
            assert(out@ =~= old(out)@ + spec_ser_inputs(t.inputs@.take(i + 1)));
        }
        i = i + 1;
    }
    proof {
        assert(t.inputs@.take(t.inputs@.len() as int) =~= t.inputs@);
    }
}

/// Appends the serialization of every output, in order.
fn push_outputs(out: &mut Vec<u8>, t: &Transaction)
    ensures
        final(out)@ == old(out)@ + spec_ser_outputs(t.outputs@),
{
    let mut i: usize = 0;
    while i < t.outputs.len()
        invariant
            i <= t.outputs@.len(),
            out@ == old(out)@ + spec_ser_outputs(t.outputs@.take(i as int)),
        decreases t.outputs@.len() - i,
    {
        let ghost pre = out@;
        push_le64(out, t.outputs[i].value);
        push_varint(out, t.outputs[i].script_pubkey.len() as u64);
        push_bytes(out, &t.outputs[i].script_pubkey);
        proof {
            assert(out@ =~= pre + spec_ser_txout(t.outputs@[i as int]));
            lemma_ser_outputs_step(t.outputs@, i as int);
            assert(out@ =~= old(out)@ + spec_ser_outputs(t.outputs@.take(i + 1)));
        }
        i = i + 1;
    }
    proof {
        assert(t.outputs@.take(t.outputs@.len() as int) =~= t.outputs@);
    }
}

/// Appends one witness stack: element count, then the elements.
fn push_witness(out: &mut Vec<u8>, w: &Vec<Vec<u8>>)
    ensures
        final(out)@ == old(out)@ + spec_ser_witness(w.deep_view()),
{
    push_varint(out, w.len() as u64);
    proof {
        assert(w.deep_view().len() == w@.len());
    }
    let mut j: usize = 0;
    while j < w.len()
        invariant
            j <= w@.len(),
            w.deep_view().len() == w@.len(),
            out@ == old(out)@ + spec_varint(w.deep_view().len()) + spec_ser_byte_seqs(
                w.deep_view().take(j as int),
            ),
        decreases w@.len() - j,
    {
        let ghost pre = out@;
        push_varint(out, w[j].len() as u64);
        push_bytes(out, &w[j]);
        proof {
            assert(w.deep_view()[j as int] =~= w@[j as int]@);
            assert(out@ =~= pre + spec_varint(w.deep_view()[j as int].len()) + w.deep_view()[
                j as int
            ]);
            lemma_ser_byte_seqs_step(w.deep_view(), j as int);
            assert(out@ =~= old(out)@ + spec_varint(w.deep_view().len()) + spec_ser_byte_seqs(
                w.deep_view().take(j + 1),
            ));
        }
        j = j + 1;
    }
    proof {
        assert(w.deep_view().take(w.deep_view().len() as int) =~= w.deep_view());
        assert(out@ =~= old(out)@ + spec_ser_witness(w.deep_view()));
    }
}

/// Appends the witness stacks of every input, in order.
fn push_witnesses(out: &mut Vec<u8>, t: &Transaction)
    ensures
        final(out)@ == old(out)@ + spec_ser_witnesses(t.inputs@),
{
    let mut i: usize = 0;
    while i < t.inputs.len()
        invariant
            i <= t.inputs@.len(),
            out@ == old(out)@ + spec_ser_witnesses(t.inputs@.take(i as int)),
        decreases t.inputs@.len() - i,
    {
        let ghost pre = out@;
        push_witness(out, &t.inputs[i].witness);
        proof {
            lemma_ser_witnesses_step(t.inputs@, i as int);
            assert(out@ =~= old(out)@ + spec_ser_witnesses(t.inputs@.take(i + 1)));
        }
        i = i + 1;
    }
    proof {
        assert(t.inputs@.take(t.inputs@.len() as int) =~= t.inputs@);
    }
}

/// The consensus serialization of the transaction.
pub fn serialize_tx(t: &Transaction) -> (r: Vec<u8>)
    ensures
        r@ == spec_ser_tx(*t),
{
    let mut out: Vec<u8> = Vec::new();
    push_le32(&mut out, t.version);
    let segwit = uses_segwit(t);
    if segwit {
        out.push(0x00);
        out.push(0x01);
    }
    push_varint(&mut out, t.inputs.len() as u64);
    push_inputs(&mut out, t);
    push_varint(&mut out, t.outputs.len() as u64);
    push_outputs(&mut out, t);
    if segwit {
        push_witnesses(&mut out, t);
    }
    push_le32(&mut out, t.lock_time);
    proof {
        if spec_uses_segwit(*t) {
            assert(out@ =~= spec_ser_tx(*t));
        } else {
            assert(out@ =~= spec_ser_tx_stripped(*t));
        }
    }
    out
}

/// The legacy serialization, with all witness data stripped.
pub fn serialize_tx_stripped(t: &Transaction) -> (r: Vec<u8>)
    ensures
        r@ == spec_ser_tx_stripped(*t),
{
    let mut out: Vec<u8> = Vec::new();
    push_le32(&mut out, t.version);
    push_varint(&mut out, t.inputs.len() as u64);
    push_inputs(&mut out, t);
    push_varint(&mut out, t.outputs.len() as u64);
    push_outputs(&mut out, t);
    push_le32(&mut out, t.lock_time);
    proof {
        assert(out@ =~= spec_ser_tx_stripped(*t));
    }
    out
}

proof fn lemma_ser_inputs_witness_independent(a: Seq<TxIn>, b: Seq<TxIn>)
    requires
        a.len() == b.len(),
        forall|j: int|
            0 <= j < a.len() ==> {
                &&& (#[trigger] a[j]).txid@ == b[j].txid@
                &&& a[j].vout == b[j].vout
                &&& a[j].script_sig@ == b[j].script_sig@
                &&& a[j].sequence == b[j].sequence
            },
    ensures
        spec_ser_inputs(a) == spec_ser_inputs(b),
    decreases a.len(),
{
    if a.len() > 0 {
        lemma_ser_inputs_witness_independent(a.drop_last(), b.drop_last());
        assert(a[a.len() - 1].txid@ == b[a.len() - 1].txid@);
        assert(spec_ser_txin_base(a.last()) == spec_ser_txin_base(b.last()));
    }
}

/// The witness-stripped serialization reads nothing but the version, the
/// lock-time, the outputs, and each input's prior-output reference: two
/// transactions agreeing on those serialize identically, whatever their
/// witnesses hold.
pub proof fn lemma_ser_tx_stripped_witness_independent(a: Transaction, b: Transaction)
    requires
        a.version == b.version,
        a.lock_time == b.lock_time,
        a.outputs == b.outputs,
        a.inputs@.len() == b.inputs@.len(),
        forall|j: int|
            0 <= j < a.inputs@.len() ==> {
                &&& (#[trigger] a.inputs@[j]).txid@ == b.inputs@[j].txid@
                &&& a.inputs@[j].vout == b.inputs@[j].vout
                &&& a.inputs@[j].script_sig@ == b.inputs@[j].script_sig@
                &&& a.inputs@[j].sequence == b.inputs@[j].sequence
            },
    ensures
        spec_ser_tx_stripped(a) == spec_ser_tx_stripped(b),
{
    lemma_ser_inputs_witness_independent(a.inputs@, b.inputs@);
}

/// The virtual size of an unsigned skeleton with `n` inputs, in closed
/// form: version, input count, `n` inputs of 41 bytes (empty unlock
/// script), one output of 9 bytes (empty locking script), lock-time.
pub open spec fn spec_skeleton_vsize(n: nat) -> nat {
    18 + spec_varint(n).len() + 41 * n
}

proof fn lemma_ser_inputs_len_fresh(s: Seq<TxIn>)
    requires
        forall|j: int| 0 <= j < s.len() ==> (#[trigger] s[j]).script_sig@.len() == 0,
    ensures
        spec_ser_inputs(s).len() == 41 * s.len(),
    decreases s.len(),
{
    if s.len() > 0 {
        lemma_ser_inputs_len_fresh(s.drop_last());
        assert(s.last().txid@.len() == 32);
        assert(spec_varint(s.last().script_sig@.len()).len() == 1);
        assert(spec_ser_txin_base(s.last()).len() == 41);
    }
}

/// The virtual size of an unsigned skeleton — at least one input, all
/// unlock scripts and witnesses empty, a single output with an empty
/// locking script — is the closed form `spec_skeleton_vsize`.
pub proof fn lemma_skeleton_vsize(t: Transaction)
    requires
        t.inputs@.len() >= 1,
        forall|j: int| 0 <= j < t.inputs@.len() ==> (#[trigger] t.inputs@[j]).witness@.len() == 0,
        forall|j: int| 0 <= j < t.inputs@.len() ==> (#[trigger] t.inputs@[j]).script_sig@.len()
            == 0,
        t.outputs@.len() == 1,
        t.outputs@[0].script_pubkey@.len() == 0,
    ensures
        spec_vsize(t) == spec_skeleton_vsize(t.inputs@.len()),
{
    assert(!spec_uses_segwit(t));
    lemma_ser_inputs_len_fresh(t.inputs@);
    let outs = t.outputs@;
    assert(spec_ser_outputs(outs.drop_last()).len() == 0) by {
        assert(outs.drop_last().len() == 0);
    }
    assert(spec_varint(outs.last().script_pubkey@.len()).len() == 1);
    assert(spec_ser_txout(outs.last()).len() == 9);
    assert(spec_ser_outputs(outs).len() == 9);
    assert(spec_varint(1nat).len() == 1);
    let n = t.inputs@.len();
    assert(spec_ser_tx_stripped(t).len() == 4 + spec_varint(n).len() + 41 * n + 1 + 9 + 4);
    assert(spec_base_size(t) == spec_skeleton_vsize(n));
    assert(spec_total_size(t) == spec_base_size(t));
    let b = spec_base_size(t);
    assert(spec_weight(t) == 4 * b);
    assert((4 * b + 3) / 4 == b);
}

/// The virtual size of the transaction, in virtual bytes. The result of
/// any serializable transaction fits in 64 bits.
pub fn tx_vsize(t: &Transaction) -> (r: u128)
    ensures
        r == spec_vsize(*t),
        r <= 0xffff_ffff_ffff_ffffu128,
{
    let stripped = serialize_tx_stripped(t);
    let full = serialize_tx(t);
    let base: u128 = stripped.len() as u128;
    let total: u128 = full.len() as u128;
    proof {
        assert(base <= 0xffff_ffff_ffff_ffffu128);
        assert(total <= 0xffff_ffff_ffff_ffffu128);
        assert((3 * base + total + 3) / 4 <= 0xffff_ffff_ffff_ffffu128);
    }
    (3 * base + total + 3) / 4
}

} // verus!
