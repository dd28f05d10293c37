use vstd::prelude::*;

verus! {

/// The transaction version used throughout this challenge domain.
pub const TX_VERSION: u32 = 2;

/// No lock-time: the transaction is valid immediately.
pub const LOCK_TIME_NONE: u32 = 0;

/// The maximum relative sequence number, used for every input.
pub const SEQUENCE_MAX: u32 = 0xffff_ffff;

/// A transaction input: a reference to a prior output (transaction id in
/// consensus byte order plus output index), an empty legacy unlock script,
/// a sequence number, and the witness stack filled in by signing.
pub struct TxIn {
    pub txid: [u8; 32],
    pub vout: u32,
    pub script_sig: Vec<u8>,
    pub sequence: u32,
    pub witness: Vec<Vec<u8>>,
}

/// A transaction output: an amount in satoshis and a locking script.
pub struct TxOut {
    pub value: u64,
    pub script_pubkey: Vec<u8>,
}

/// A transaction: ordered inputs and outputs with fixed version and
/// lock-time constants for this challenge domain.
pub struct Transaction {
    pub version: u32,
    pub lock_time: u32,
    pub inputs: Vec<TxIn>,
    pub outputs: Vec<TxOut>,
}

/// What a freshly added input referencing `txid`/`vout` looks like:
/// empty unlock script, maximum sequence, empty witness.
pub open spec fn spec_fresh_input(i: TxIn, txid: Seq<u8>, vout: u32) -> bool {
    &&& i.txid@ == txid
    &&& i.vout == vout
    &&& i.script_sig@ == Seq::<u8>::empty()
    &&& i.sequence == SEQUENCE_MAX
    &&& i.witness@.len() == 0
}

/// A transaction whose every witness stack is still empty.
pub open spec fn spec_all_witnesses_empty(t: Transaction) -> bool {
    forall|j: int| 0 <= j < t.inputs@.len() ==> #[trigger] t.inputs@[j].witness@.len() == 0
}

/// A builder for constructing the challenge's unsigned transaction. The
/// builder never touches witness or signature data; that is exclusively
/// the signature engine's responsibility.
pub struct TransactionBuilder {
    /// The transaction being built.
    pub transaction: Transaction,
}

impl TransactionBuilder {
    /// Creates a builder whose transaction has no inputs and a single
    /// output of `amount_out` satoshis with a not-yet-assigned locking
    /// script.
    pub fn new(amount_out: u64) -> (b: Self)
        ensures
            b.transaction.version == TX_VERSION,
            b.transaction.lock_time == LOCK_TIME_NONE,
            b.transaction.inputs@.len() == 0,
            b.transaction.outputs@.len() == 1,
            b.transaction.outputs@[0].value == amount_out,
            b.transaction.outputs@[0].script_pubkey@ == Seq::<u8>::empty(),
    {
        let mut outputs: Vec<TxOut> = Vec::new();
        outputs.push(TxOut { value: amount_out, script_pubkey: Vec::new() });
        TransactionBuilder {
            transaction: Transaction {
                version: TX_VERSION,
                lock_time: LOCK_TIME_NONE,
                inputs: Vec::new(),
                outputs,
            },
        }
    }

    /// Appends an input referencing the prior output `txid`/`vout`, with an
    /// empty unlock script, maximum sequence and empty witness. Everything
    /// already in the transaction is left untouched.
    pub fn add_input(&mut self, txid: [u8; 32], vout: u32)
        ensures
            final(self).transaction.version == old(self).transaction.version,
            final(self).transaction.lock_time == old(self).transaction.lock_time,
            final(self).transaction.outputs == old(self).transaction.outputs,
            final(self).transaction.inputs@.len() == old(self).transaction.inputs@.len() + 1,
            forall|j: int|
                0 <= j < old(self).transaction.inputs@.len()
                    ==> final(self).transaction.inputs@[j] == old(self).transaction.inputs@[j],
            spec_fresh_input(final(self).transaction.inputs@.last(), txid@, vout),
    {
        self.transaction.inputs.push(TxIn {
            txid,
            vout,
            script_sig: Vec::new(),
            sequence: SEQUENCE_MAX,
            witness: Vec::new(),
        });
    }

    /// Appends a secondary output paying `amount` satoshis to
    /// `script_pubkey`; not required for the minimal challenge.
    pub fn add_output(self, script_pubkey: Vec<u8>, amount: u64) -> (r: Self)
        ensures
            r.transaction.version == self.transaction.version,
            r.transaction.lock_time == self.transaction.lock_time,
            r.transaction.inputs == self.transaction.inputs,
            r.transaction.outputs@.len() == self.transaction.outputs@.len() + 1,
            forall|j: int|
                0 <= j < self.transaction.outputs@.len()
                    ==> r.transaction.outputs@[j] == self.transaction.outputs@[j],
            r.transaction.outputs@.last().value == amount,
            r.transaction.outputs@.last().script_pubkey@ == script_pubkey@,
    {
        let TransactionBuilder { transaction } = self;
        let Transaction { version, lock_time, inputs, mut outputs } = transaction;
        outputs.push(TxOut { value: amount, script_pubkey });
        TransactionBuilder {
            transaction: Transaction { version, lock_time, inputs, outputs },
        }
    }

    /// Returns the assembled, still unsigned, transaction and consumes the
    /// builder: no further mutation goes through it afterwards.
    pub fn build(self) -> (t: Transaction)
        ensures
            t == self.transaction,
    {
        self.transaction
    }
}

/// What the skeleton built from `amount_out` and the outpoint list
/// `entries` looks like, field by field: every structural value of the
/// transaction is determined by the two arguments.
pub open spec fn spec_skeleton_matches(
    t: Transaction,
    amount_out: u64,
    entries: Seq<([u8; 32], u32)>,
) -> bool {
    &&& t.version == TX_VERSION
    &&& t.lock_time == LOCK_TIME_NONE
    &&& t.outputs@.len() == 1
    &&& t.outputs@[0].value == amount_out
    &&& t.outputs@[0].script_pubkey@.len() == 0
    &&& t.inputs@.len() == entries.len()
    &&& forall|j: int|
        0 <= j < entries.len() ==> spec_fresh_input(
            #[trigger] t.inputs@[j],
            entries[j].0@,
            entries[j].1,
        )
}

/// Runs the builder over a fixed sequence of inputs: one output of
/// `amount_out` with a not-yet-assigned script, then one fresh input per
/// entry, in order.
pub fn build_skeleton(amount_out: u64, entries: &Vec<([u8; 32], u32)>) -> (t: Transaction)
    ensures
        spec_skeleton_matches(t, amount_out, entries@),
{
    let mut builder = TransactionBuilder::new(amount_out);
    let mut j: usize = 0;
    while j < entries.len()
        invariant
            j <= entries@.len(),
            builder.transaction.version == TX_VERSION,
            builder.transaction.lock_time == LOCK_TIME_NONE,
            builder.transaction.outputs@.len() == 1,
            builder.transaction.outputs@[0].value == amount_out,
            builder.transaction.outputs@[0].script_pubkey@.len() == 0,
            builder.transaction.inputs@.len() == j,
            forall|k: int|
                0 <= k < j ==> spec_fresh_input(
                    #[trigger] builder.transaction.inputs@[k],
                    entries@[k].0@,
                    entries@[k].1,
                ),
        decreases entries@.len() - j,
    {
        builder.add_input(entries[j].0, entries[j].1);
        j = j + 1;
    }
    builder.build()
}

/// Law (deterministic build): the skeleton is a function of the build
/// sequence alone. Two transactions assembled from the same target amount
/// and the same ordered entry list are structurally identical: same
/// ordering and same field values throughout.
pub proof fn lemma_build_deterministic(
    t1: Transaction,
    t2: Transaction,
    amount_out: u64,
    entries: Seq<([u8; 32], u32)>,
)
    requires
        spec_skeleton_matches(t1, amount_out, entries),
        spec_skeleton_matches(t2, amount_out, entries),
    ensures
        t1.version == t2.version,
        t1.lock_time == t2.lock_time,
        t1.inputs@.len() == t2.inputs@.len(),
        forall|j: int|
            0 <= j < entries.len() ==> {
                &&& (#[trigger] t1.inputs@[j]).txid@ == t2.inputs@[j].txid@
                &&& t1.inputs@[j].vout == t2.inputs@[j].vout
                &&& t1.inputs@[j].script_sig@ == t2.inputs@[j].script_sig@
                &&& t1.inputs@[j].sequence == t2.inputs@[j].sequence
                &&& t1.inputs@[j].witness@.len() == t2.inputs@[j].witness@.len()
            },
        t1.outputs@.len() == t2.outputs@.len(),
        t1.outputs@[0].value == t2.outputs@[0].value,
        t1.outputs@[0].script_pubkey@ == t2.outputs@[0].script_pubkey@,
{
    assert(forall|j: int|
        0 <= j < entries.len() ==> spec_fresh_input(#[trigger] t1.inputs@[j], entries[j].0@, entries[j].1)
            && spec_fresh_input(#[trigger] t2.inputs@[j], entries[j].0@, entries[j].1));
    assert(t1.outputs@[0].script_pubkey@ =~= t2.outputs@[0].script_pubkey@);
}

} // verus!
