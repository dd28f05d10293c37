//! Discovery-result selection: orders spendable outputs by confirmation
//! height (oldest first, when the height is known) and truncates the list
//! to the challenge's input cap.

use vstd::multiset::Multiset;
use vstd::prelude::*;

verus! {

/// A discovered spendable output: the prior transaction id (consensus
/// byte order), output index, amount in satoshis, locking script, and
/// the confirmation height when the scan reported one.
pub struct Utxo {
    pub txid: [u8; 32],
    pub vout: u32,
    pub amount: u64,
    pub script_pubkey: Vec<u8>,
    pub height: Option<u64>,
}

/// The ordering key: entries of unknown height sort before all known
/// heights, known heights ascend.
pub open spec fn spec_height_key(u: Utxo) -> nat {
    match u.height {
        Option::None => 0,
        Option::Some(h) => h as nat + 1,
    }
}

/// Ascending confirmation-height order.
pub open spec fn spec_sorted_by_height(s: Seq<Utxo>) -> bool {
    forall|i: int, j: int|
        0 <= i < j < s.len() ==> spec_height_key(#[trigger] s[i]) <= spec_height_key(
            #[trigger] s[j],
        )
}

/// Whether `a` sorts no later than `b`.
fn height_le(a: &Utxo, b: &Utxo) -> (r: bool)
    ensures
        r == (spec_height_key(*a) <= spec_height_key(*b)),
{
    match (a.height, b.height) {
        (Option::None, _) => true,
        (Option::Some(_), Option::None) => false,
        (Option::Some(x), Option::Some(y)) => x <= y,
    }
}

/// Whether the scan reported no height for any entry.
pub open spec fn spec_all_heights_unknown(s: Seq<Utxo>) -> bool {
    forall|i: int| 0 <= i < s.len() ==> (#[trigger] s[i]).height is None
}

/// Sorts the outputs into ascending confirmation-height order by
/// repeatedly moving the first minimal remaining entry to the result.
/// When no entry has a known height there is nothing to order by, and
/// the discovery order is kept as it stands.
pub fn sort_by_height(utxos: Vec<Utxo>) -> (r: Vec<Utxo>)
    ensures
        spec_sorted_by_height(r@),
        r@.to_multiset() == utxos@.to_multiset(),
        r@.len() == utxos@.len(),
        spec_all_heights_unknown(utxos@) ==> r@ == utxos@,
{
    broadcast use vstd::seq_lib::group_to_multiset_ensures;
    broadcast use vstd::multiset::group_multiset_axioms;

    let ghost orig = utxos@;
    let mut rest = utxos;
    let mut out: Vec<Utxo> = Vec::new();
    proof {
        assert(out@.to_multiset().add(rest@.to_multiset()) =~= orig.to_multiset());
        assert(out@ + rest@ =~= orig);
    }
    while rest.len() > 0
        invariant
            out@.to_multiset().add(rest@.to_multiset()) == orig.to_multiset(),
            out@.len() + rest@.len() == orig.len(),
            spec_sorted_by_height(out@),
            forall|i: int, j: int|
                0 <= i < out@.len() && 0 <= j < rest@.len() ==> spec_height_key(#[trigger] out@[i])
                    <= spec_height_key(#[trigger] rest@[j]),
            spec_all_heights_unknown(orig) ==> out@ + rest@ == orig,
            spec_all_heights_unknown(orig) ==> spec_all_heights_unknown(rest@),
        decreases rest@.len(),
    {
        let mut m: usize = 0;
        let mut j: usize = 1;
        while j < rest.len()
            invariant
                m < j,
                j <= rest@.len(),
                rest@.len() > 0,
                forall|k: int|
                    0 <= k < j ==> spec_height_key(rest@[m as int]) <= spec_height_key(
                        #[trigger] rest@[k],
                    ),
                spec_all_heights_unknown(rest@) ==> m == 0,
            decreases rest@.len() - j,
        {
            if !height_le(&rest[m], &rest[j]) {
                m = j;
            }
            j = j + 1;
        }
        let ghost pre_rest = rest@;
        let ghost pre_out = out@;
        let picked = rest.remove(m);
        out.push(picked);
        proof {
            pre_rest.remove_ensures(m as int);
            assert(picked == pre_rest[m as int]);
            assert(pre_rest.contains(picked)) by {
                assert(pre_rest[m as int] == picked);
            }
            vstd::seq_lib::to_multiset_remove(pre_rest, m as int);
            vstd::seq_lib::to_multiset_build(pre_out, picked);
            assert(rest@ == pre_rest.remove(m as int));
            assert(rest@.to_multiset() == pre_rest.to_multiset().remove(picked));
            assert(out@ == pre_out.push(picked));
            assert(out@.to_multiset() == pre_out.to_multiset().insert(picked));
            vstd::seq_lib::to_multiset_contains(pre_rest, picked);
            assert(pre_rest.to_multiset().count(picked) > 0);
            assert(out@.to_multiset().add(rest@.to_multiset()) =~= orig.to_multiset());
            assert(forall|jj: int|
                0 <= jj < rest@.len() ==> spec_height_key(picked) <= spec_height_key(
                    #[trigger] rest@[jj],
                ));
            assert(forall|ii: int|
                0 <= ii < pre_out.len() ==> #[trigger] out@[ii] == pre_out[ii]);
            assert(out@.last() == picked);
            assert(spec_sorted_by_height(out@));
            if spec_all_heights_unknown(orig) {
                assert(spec_all_heights_unknown(pre_rest));
                assert(m == 0);
                assert(rest@ =~= pre_rest.drop_first());
                assert(out@ + rest@ =~= pre_out + pre_rest);
                assert(forall|ii: int|
                    0 <= ii < rest@.len() ==> #[trigger] rest@[ii] == pre_rest[ii + 1]);
                assert(spec_all_heights_unknown(rest@));
            }
        }
    }
    proof {
        assert(rest@.to_multiset() =~= Multiset::<Utxo>::empty()) by {
            assert(forall|x: Utxo| !rest@.contains(x));
        }
        assert(out@.to_multiset() =~= out@.to_multiset().add(rest@.to_multiset()));
        if spec_all_heights_unknown(orig) {
            assert(out@ =~= out@ + rest@);
        }
    }
    out
}

/// A valid selection from `found` under `cap`: a sorted prefix — the
/// `cap` oldest entries — of some height-sorted rearrangement of `found`,
/// or all of `found` sorted when it has no more than `cap` entries.
pub open spec fn spec_valid_selection(sel: Seq<Utxo>, found: Seq<Utxo>, cap: int) -> bool {
    &&& sel.len() == (if found.len() <= cap {
        found.len() as int
    } else {
        cap
    })
    &&& spec_sorted_by_height(sel)
    &&& exists|full: Seq<Utxo>|
        full.to_multiset() == found.to_multiset() && spec_sorted_by_height(full) && sel
            == full.take(sel.len() as int)
}

/// Selects the outputs the challenge transaction will spend: the whole
/// discovery result sorted oldest-first, truncated to at most `cap`
/// entries. The result is a sorted prefix — the `cap` oldest entries —
/// of some height-sorted rearrangement of the input.
pub fn select_utxos(utxos: Vec<Utxo>, cap: usize) -> (r: Vec<Utxo>)
    ensures
        r@.len() <= cap,
        spec_valid_selection(r@, utxos@, cap as int),
        spec_all_heights_unknown(utxos@) ==> r@ == utxos@.take(r@.len() as int),
{
    let ghost orig = utxos@;
    let mut sorted = sort_by_height(utxos);
    let ghost full = sorted@;
    if sorted.len() > cap {
        sorted.truncate(cap);
        proof {
            assert(sorted@ == full.take(cap as int));
            assert(spec_sorted_by_height(sorted@));
        }
    } else {
        proof {
            assert(full.take(full.len() as int) =~= full);
        }
    }
    proof {
        assert(full.to_multiset() == orig.to_multiset() && spec_sorted_by_height(full) && sorted@
            == full.take(sorted@.len() as int));
        assert(spec_valid_selection(sorted@, orig, cap as int));
    }
    sorted
}

} // verus!
