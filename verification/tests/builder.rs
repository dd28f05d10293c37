use bitcoin_ctf::tx::{build_skeleton, Transaction, TransactionBuilder, TxIn, TxOut};

#[test]
fn new_builder_shape() {
    let b = TransactionBuilder::new(5_000);
    let t = b.build();
    assert_eq!(t.version, 2);
    assert_eq!(t.lock_time, 0);
    assert!(t.inputs.is_empty());
    assert_eq!(t.outputs.len(), 1);
    assert_eq!(t.outputs[0].value, 5_000);
    assert!(t.outputs[0].script_pubkey.is_empty());
}

#[test]
fn add_input_appends_fresh_input() {
    let mut b = TransactionBuilder::new(1_000);
    b.add_input([7u8; 32], 3);
    b.add_input([9u8; 32], 0);
    let t = b.build();
    assert_eq!(t.inputs.len(), 2);
    assert_eq!(t.inputs[0].txid, [7u8; 32]);
    assert_eq!(t.inputs[0].vout, 3);
    assert!(t.inputs[0].script_sig.is_empty());
    assert_eq!(t.inputs[0].sequence, 0xffff_ffff);
    assert!(t.inputs[0].witness.is_empty());
    assert_eq!(t.inputs[1].txid, [9u8; 32]);
    assert_eq!(t.inputs[1].vout, 0);
}

#[test]
fn add_output_appends() {
    let b = TransactionBuilder::new(1_000);
    let b = b.add_output(vec![0x51, 0x20, 0xaa], 77);
    let t = b.build();
    assert_eq!(t.outputs.len(), 2);
    assert_eq!(t.outputs[1].value, 77);
    assert_eq!(t.outputs[1].script_pubkey, vec![0x51, 0x20, 0xaa]);
}

fn assert_same_structure(a: &Transaction, b: &Transaction) {
    assert_eq!(a.version, b.version);
    assert_eq!(a.lock_time, b.lock_time);
    assert_eq!(a.inputs.len(), b.inputs.len());
    for (x, y) in a.inputs.iter().zip(b.inputs.iter()) {
        let (x, y): (&TxIn, &TxIn) = (x, y);
        assert_eq!(x.txid, y.txid);
        assert_eq!(x.vout, y.vout);
        assert_eq!(x.script_sig, y.script_sig);
        assert_eq!(x.sequence, y.sequence);
        assert_eq!(x.witness, y.witness);
    }
    assert_eq!(a.outputs.len(), b.outputs.len());
    for (x, y) in a.outputs.iter().zip(b.outputs.iter()) {
        let (x, y): (&TxOut, &TxOut) = (x, y);
        assert_eq!(x.value, y.value);
        assert_eq!(x.script_pubkey, y.script_pubkey);
    }
}

#[test]
fn build_is_deterministic() {
    let entries = vec![([1u8; 32], 0u32), ([2u8; 32], 5u32), ([3u8; 32], 1u32)];
    let t1 = build_skeleton(42_000, &entries);
    let t2 = build_skeleton(42_000, &entries);
    assert_same_structure(&t1, &t2);
    assert_eq!(
        bitcoin_ctf::encode::serialize_tx(&t1),
        bitcoin_ctf::encode::serialize_tx(&t2)
    );
}
