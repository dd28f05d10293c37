use bitcoin_ctf::encode::{push_le32, push_le64, push_varint, serialize_tx, tx_vsize};
use bitcoin_ctf::tx::{Transaction, TxIn, TxOut};

fn varint_bytes(n: u64) -> Vec<u8> {
    let mut v = Vec::new();
    push_varint(&mut v, n);
    v
}

#[test]
fn varint_edges() {
    assert_eq!(varint_bytes(0), vec![0x00]);
    assert_eq!(varint_bytes(0xfc), vec![0xfc]);
    assert_eq!(varint_bytes(0xfd), vec![0xfd, 0xfd, 0x00]);
    assert_eq!(varint_bytes(0xffff), vec![0xfd, 0xff, 0xff]);
    assert_eq!(varint_bytes(0x1_0000), vec![0xfe, 0x00, 0x00, 0x01, 0x00]);
    assert_eq!(varint_bytes(0xffff_ffff), vec![0xfe, 0xff, 0xff, 0xff, 0xff]);
    assert_eq!(
        varint_bytes(0x1_0000_0000),
        vec![0xff, 0x00, 0x00, 0x00, 0x00, 0x01, 0x00, 0x00, 0x00]
    );
}

#[test]
fn little_endian_words() {
    let mut v = Vec::new();
    push_le32(&mut v, 0x0102_0304);
    assert_eq!(v, vec![0x04, 0x03, 0x02, 0x01]);
    let mut w = Vec::new();
    push_le64(&mut w, 0x0102_0304_0506_0708);
    assert_eq!(w, vec![0x08, 0x07, 0x06, 0x05, 0x04, 0x03, 0x02, 0x01]);
}

fn sample_tx(with_witness: bool) -> Transaction {
    let w0 = if with_witness { vec![vec![0xaa; 65]] } else { vec![] };
    let w1 = if with_witness { vec![vec![0xbb; 65], vec![0x01, 0x02]] } else { vec![] };
    Transaction {
        version: 2,
        lock_time: 0,
        inputs: vec![
            TxIn {
                txid: [0x11; 32],
                vout: 1,
                script_sig: vec![],
                sequence: 0xffff_ffff,
                witness: w0,
            },
            TxIn {
                txid: [0x22; 32],
                vout: 0,
                script_sig: vec![],
                sequence: 0xffff_ffff,
                witness: w1,
            },
        ],
        outputs: vec![
            TxOut { value: 4_999_999_880, script_pubkey: vec![0x51, 0x20, 0x33] },
            TxOut { value: 1_234, script_pubkey: vec![] },
        ],
    }
}

fn to_chain_tx(t: &Transaction) -> bitcoin::Transaction {
    bitcoin::Transaction {
        version: bitcoin::transaction::Version(t.version as i32),
        lock_time: bitcoin::absolute::LockTime::from_consensus(t.lock_time),
        input: t
            .inputs
            .iter()
            .map(|i| bitcoin::TxIn {
                previous_output: bitcoin::OutPoint {
                    txid: <bitcoin::Txid as bitcoin::hashes::Hash>::from_byte_array(i.txid),
                    vout: i.vout,
                },
                script_sig: bitcoin::ScriptBuf::from(i.script_sig.clone()),
                sequence: bitcoin::Sequence(i.sequence),
                witness: bitcoin::Witness::from_slice(&i.witness),
            })
            .collect(),
        output: t
            .outputs
            .iter()
            .map(|o| bitcoin::TxOut {
                value: bitcoin::Amount::from_sat(o.value),
                script_pubkey: bitcoin::ScriptBuf::from(o.script_pubkey.clone()),
            })
            .collect(),
    }
}

#[test]
fn serialization_matches_consensus_encoding_segwit() {
    let t = sample_tx(true);
    let mine = serialize_tx(&t);
    let reference = bitcoin::consensus::serialize(&to_chain_tx(&t));
    assert_eq!(mine, reference);
}

#[test]
fn serialization_matches_consensus_encoding_legacy() {
    let t = sample_tx(false);
    let mine = serialize_tx(&t);
    let reference = bitcoin::consensus::serialize(&to_chain_tx(&t));
    assert_eq!(mine, reference);
}

#[test]
fn vsize_matches_reference() {
    for with_witness in [false, true] {
        let t = sample_tx(with_witness);
        let mine = tx_vsize(&t);
        let reference = to_chain_tx(&t).vsize() as u128;
        assert_eq!(mine, reference);
    }
}

#[test]
fn unsigned_skeleton_vsize_closed_form() {
    let entries = vec![([5u8; 32], 0u32)];
    let t = bitcoin_ctf::tx::build_skeleton(0, &entries);
    assert_eq!(tx_vsize(&t), 60);
    let entries17: Vec<([u8; 32], u32)> = (0..17).map(|k| ([k as u8; 32], 0u32)).collect();
    let t17 = bitcoin_ctf::tx::build_skeleton(0, &entries17);
    assert_eq!(tx_vsize(&t17), 18 + 1 + 41 * 17);
}
