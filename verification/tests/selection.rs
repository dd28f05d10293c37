use bitcoin_ctf::select::{select_utxos, sort_by_height, Utxo};

fn utxo(tag: u8, amount: u64, height: Option<u64>) -> Utxo {
    Utxo {
        txid: [tag; 32],
        vout: 0,
        amount,
        script_pubkey: vec![0x51, 0x20, tag],
        height,
    }
}

#[test]
fn scenario_twenty_distinct_heights() {
    // Twenty discovered outputs with distinct heights, in scrambled order:
    // selection must return exactly seventeen, the seventeen lowest
    // heights, in ascending order.
    let heights: Vec<u64> = vec![
        119, 103, 111, 100, 118, 105, 101, 116, 108, 102, 114, 107, 117, 104, 110, 106, 115, 109,
        112, 113,
    ];
    let utxos: Vec<Utxo> = heights
        .iter()
        .enumerate()
        .map(|(k, h)| utxo(k as u8, 5_000_000_000, Some(*h)))
        .collect();
    let selected = select_utxos(utxos, 17);
    assert_eq!(selected.len(), 17);
    let got: Vec<u64> = selected.iter().map(|u| u.height.unwrap()).collect();
    let expected: Vec<u64> = (100..117).collect();
    assert_eq!(got, expected);
}

#[test]
fn selection_never_exceeds_cap() {
    let utxos: Vec<Utxo> = (0..25).map(|k| utxo(k as u8, 100, Some(k as u64))).collect();
    let selected = select_utxos(utxos, 17);
    assert_eq!(selected.len(), 17);
}

#[test]
fn selection_keeps_everything_under_cap() {
    let utxos = vec![utxo(1, 10, Some(9)), utxo(2, 20, Some(3)), utxo(3, 30, Some(7))];
    let selected = select_utxos(utxos, 17);
    assert_eq!(selected.len(), 3);
    let got: Vec<u64> = selected.iter().map(|u| u.height.unwrap()).collect();
    assert_eq!(got, vec![3, 7, 9]);
}

#[test]
fn selection_of_nothing_is_empty() {
    let selected = select_utxos(Vec::new(), 17);
    assert!(selected.is_empty());
}

#[test]
fn unknown_heights_sort_first() {
    let utxos = vec![utxo(1, 10, Some(5)), utxo(2, 20, None), utxo(3, 30, Some(1))];
    let sorted = sort_by_height(utxos);
    assert_eq!(sorted.len(), 3);
    assert_eq!(sorted[0].height, None);
    assert_eq!(sorted[1].height, Some(1));
    assert_eq!(sorted[2].height, Some(5));
}

#[test]
fn all_unknown_heights_keep_discovery_order() {
    let utxos = vec![utxo(4, 40, None), utxo(1, 10, None), utxo(3, 30, None)];
    let selected = select_utxos(utxos, 2);
    assert_eq!(selected.len(), 2);
    assert_eq!(selected[0].amount, 40);
    assert_eq!(selected[1].amount, 10);
}

#[test]
fn sort_keeps_all_entries() {
    let utxos: Vec<Utxo> = (0..9).map(|k| utxo(k as u8, k as u64, Some(100 - k as u64))).collect();
    let sorted = sort_by_height(utxos);
    assert_eq!(sorted.len(), 9);
    let mut amounts: Vec<u64> = sorted.iter().map(|u| u.amount).collect();
    amounts.sort();
    assert_eq!(amounts, (0..9).collect::<Vec<u64>>());
}
