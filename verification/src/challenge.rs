//! The timed challenge: per-level configuration, the fee policy, the
//! assembly of the vulnerable signed transaction from discovered outputs,
//! the linear state machine sequencing a run, and the mapping from the
//! broadcast outcome to pass or fail.

use vstd::prelude::*;

use crate::encode::{
    lemma_skeleton_vsize, serialize_tx, spec_ser_tx, spec_ser_tx_stripped, spec_skeleton_vsize,
    spec_vsize, tx_vsize,
};
use crate::engine::{
    lemma_witness_shape, sign_all_inputs, spec_effective_seckey, spec_fully_signed,
    spec_input_digest, spec_prevout_scripts, spec_prevout_values, spec_taproot_sighash,
    spec_tweaked_seckey, spec_witnesses_signed_shape,
};
use crate::errors::CtfError;
use crate::keys::{spec_seckey_valid, LevelKeys};
use crate::select::{select_utxos, spec_valid_selection, Utxo};
use crate::state::State;
use crate::tx::{
    build_skeleton, spec_all_witnesses_empty, spec_fresh_input, spec_skeleton_matches, Transaction,
    TxOut, LOCK_TIME_NONE, SEQUENCE_MAX, TX_VERSION,
};

verus! {

/// The most inputs a challenge transaction ever spends.
pub const INPUT_CAP: usize = 17;

/// The countdown window, in seconds.
pub const COUNTDOWN_SECS: u64 = 60;

/// Blocks mined to the challenge address so its coinbase outputs mature.
pub const MATURITY_BLOCKS: u64 = 118;

/// The fee rate, in satoshis per virtual byte.
pub const FEE_RATE: u64 = 2;

/// The score a completed level awards.
pub const LEVEL_SCORE: u32 = 100;

/// The immutable per-level configuration: how much to fund, how many
/// inputs to spend, whether the address commits to a script tree, and how
/// the broadcast outcome maps to pass or fail.
#[derive(Clone, Copy, Debug, PartialEq, Eq, Structural)]
pub struct LevelConfig {
    pub input_cap: usize,
    pub countdown_secs: u64,
    pub maturity_blocks: u64,
    pub fee_rate: u64,
    pub use_commitment: bool,
    pub pass_on_broadcast_failure: bool,
}

/// The levels the game ships. Each is pure configuration, dispatched
/// through one runner rather than through per-level virtual methods.
#[derive(Clone, Copy, Debug, PartialEq, Eq, Structural)]
pub enum Level {
    One,
    Two,
}

/// Each level's configuration. The two levels read the broadcast outcome
/// in opposite directions: the first rewards the stored transaction
/// failing to confirm, the second rewards it confirming.
pub open spec fn spec_level_config(l: Level) -> LevelConfig {
    match l {
        Level::One => LevelConfig {
            input_cap: INPUT_CAP,
            countdown_secs: COUNTDOWN_SECS,
            maturity_blocks: MATURITY_BLOCKS,
            fee_rate: FEE_RATE,
            use_commitment: true,
            pass_on_broadcast_failure: true,
        },
        Level::Two => LevelConfig {
            input_cap: INPUT_CAP,
            countdown_secs: COUNTDOWN_SECS,
            maturity_blocks: MATURITY_BLOCKS,
            fee_rate: FEE_RATE,
            use_commitment: true,
            pass_on_broadcast_failure: false,
        },
    }
}

pub open spec fn spec_level_number(l: Level) -> u32 {
    match l {
        Level::One => 1,
        Level::Two => 2,
    }
}

impl Level {
    /// This level's configuration.
    pub fn config(&self) -> (c: LevelConfig)
        ensures
            c == spec_level_config(*self),
    {
        match self {
            Level::One => LevelConfig {
                input_cap: INPUT_CAP,
                countdown_secs: COUNTDOWN_SECS,
                maturity_blocks: MATURITY_BLOCKS,
                fee_rate: FEE_RATE,
                use_commitment: true,
                pass_on_broadcast_failure: true,
            },
            Level::Two => LevelConfig {
                input_cap: INPUT_CAP,
                countdown_secs: COUNTDOWN_SECS,
                maturity_blocks: MATURITY_BLOCKS,
                fee_rate: FEE_RATE,
                use_commitment: true,
                pass_on_broadcast_failure: false,
            },
        }
    }

    /// This level's number, as the game state records it.
    pub fn number(&self) -> (n: u32)
        ensures
            n == spec_level_number(*self),
    {
        match self {
            Level::One => 1,
            Level::Two => 2,
        }
    }
}

/// The phases of one challenge run; transitions are strictly linear.
#[derive(Clone, Copy, Debug, PartialEq, Eq, Structural)]
pub enum Phase {
    Setup,
    Armed,
    Countdown,
    Resolved,
    CleanedUp,
}

/// How a broadcast outcome reads for a level: pass when the stored
/// transaction was rejected (the player moved the funds first), or pass
/// when it was accepted, depending on the level's mapping.
pub open spec fn spec_outcome(c: LevelConfig, broadcast_accepted: bool) -> bool {
    if c.pass_on_broadcast_failure {
        !broadcast_accepted
    } else {
        broadcast_accepted
    }
}

/// Maps the broadcast outcome to pass or fail under the level's
/// configured direction.
pub fn resolve_outcome(config: &LevelConfig, broadcast_accepted: bool) -> (r: bool)
    ensures
        r == spec_outcome(*config, broadcast_accepted),
{
    if config.pass_on_broadcast_failure {
        !broadcast_accepted
    } else {
        broadcast_accepted
    }
}

/// The fee the policy charges for a transaction: virtual size times rate.
pub open spec fn spec_fee(t: Transaction, rate: u64) -> int {
    spec_vsize(t) * rate
}

/// Rewrites the first output once the total input value is known: its
/// amount becomes the total minus the estimated fee (virtual size of the
/// transaction as it stands, times the fee rate) and its script becomes
/// the destination. Everything else is left untouched.
pub fn finalize_output(
    transaction: &mut Transaction,
    dest_script: Vec<u8>,
    total_input: u64,
    fee_rate: u64,
) -> (r: Result<(), CtfError>)
    requires
        old(transaction).outputs@.len() >= 1,
    ensures
        r is Err <==> spec_fee(*old(transaction), fee_rate) >= total_input,
        r is Err ==> r == Err::<(), CtfError>(CtfError::InsufficientFunds) && *final(transaction)
            == *old(transaction),
        r is Ok ==> {
            &&& spec_fee(*old(transaction), fee_rate) < total_input
            &&& final(transaction).version == old(transaction).version
            &&& final(transaction).lock_time == old(transaction).lock_time
            &&& final(transaction).inputs == old(transaction).inputs
            &&& final(transaction).outputs@.len() == old(transaction).outputs@.len()
            &&& final(transaction).outputs@[0].value == total_input - spec_fee(
                *old(transaction),
                fee_rate,
            )
            &&& final(transaction).outputs@[0].script_pubkey@ == dest_script@
            &&& forall|j: int|
                1 <= j < old(transaction).outputs@.len() ==> final(transaction).outputs@[j] == old(
                    transaction,
                ).outputs@[j]
        },
{
    let vsize = tx_vsize(transaction);
    proof {
        assert(vsize * (fee_rate as u128) <= 0xffff_ffff_ffff_ffffu128
            * 0xffff_ffff_ffff_ffffu128) by (nonlinear_arith)
            requires
                vsize <= 0xffff_ffff_ffff_ffffu128,
                fee_rate <= 0xffff_ffff_ffff_ffffu64,
        ;
    }
    let fee = vsize * (fee_rate as u128);
    if fee >= (total_input as u128) {
        return Err(CtfError::InsufficientFunds);
    }
    let value: u64 = total_input - (fee as u64);
    let ghost pre_outs = transaction.outputs@;
    let mut first = transaction.outputs.remove(0);
    first.value = value;
    first.script_pubkey = dest_script;
    transaction.outputs.insert(0, first);
    proof {
        assert(transaction.outputs@ =~= pre_outs.remove(0).insert(0, first));
        assert(transaction.outputs@.len() == pre_outs.len());
        assert(transaction.outputs@[0] == first);
        assert(forall|j: int| 1 <= j < pre_outs.len() ==> transaction.outputs@[j] == pre_outs[j]);
    }
    Ok(())
}

/// What a challenge run hands to its countdown-and-broadcast stage: the
/// fully signed transaction, its raw consensus serialization (the
/// artifact the player attacks), the previous outputs it spends, and the
/// total input value.
pub struct ChallengeArtifact {
    pub transaction: Transaction,
    pub raw: Vec<u8>,
    pub prevouts: Vec<TxOut>,
    pub total_input: u64,
}

/// The sum of the selected amounts.
pub open spec fn spec_sum_amounts(s: Seq<Utxo>) -> int
    decreases s.len(),
{
    if s.len() == 0 {
        0
    } else {
        spec_sum_amounts(s.drop_last()) + s.last().amount
    }
}

/// The key the artifact was signed with, as determined by the key
/// material: the tweaked key when a commitment is present (meaningful
/// only when the tweak chain succeeds).
pub open spec fn spec_signing_key(k: LevelKeys) -> Seq<u8> {
    match k.tweak {
        Some(t) => match spec_tweaked_seckey(k.secret_key@, t@) {
            Some(x) => x,
            None => Seq::<u8>::empty(),
        },
        None => k.secret_key@,
    }
}

/// The amounts of a selection, in order.
pub open spec fn spec_selection_values(s: Seq<Utxo>) -> Seq<u64> {
    s.map_values(|u: Utxo| u.amount)
}

/// The locking scripts of a selection, in order.
pub open spec fn spec_selection_scripts(s: Seq<Utxo>) -> Seq<Seq<u8>> {
    s.map_values(|u: Utxo| u.script_pubkey@)
}

/// The finalized but unsigned skeleton that setup builds from a
/// selection: fresh inputs referencing the selection in order, and a
/// single output paying the payout script the selection's total minus the
/// fee.
pub open spec fn spec_finalized_skeleton(
    t: Transaction,
    sel: Seq<Utxo>,
    payout: Seq<u8>,
    rate: u64,
) -> bool {
    &&& t.version == TX_VERSION
    &&& t.lock_time == LOCK_TIME_NONE
    &&& spec_all_witnesses_empty(t)
    &&& t.inputs@.len() == sel.len()
    &&& forall|j: int|
        0 <= j < sel.len() ==> spec_fresh_input(#[trigger] t.inputs@[j], sel[j].txid@, sel[j].vout)
    &&& t.outputs@.len() == 1
    &&& t.outputs@[0].script_pubkey@ == payout
    &&& t.outputs@[0].value == spec_sum_amounts(sel) - spec_skeleton_vsize(sel.len()) * rate
}

/// The inputs of the artifact's transaction reference exactly the
/// selection `sel`, and its previous-output list mirrors the selection's
/// amounts and scripts, entry by entry.
pub open spec fn spec_artifact_spends(a: ChallengeArtifact, sel: Seq<Utxo>) -> bool {
    forall|j: int|
        0 <= j < sel.len() ==> {
            &&& (#[trigger] a.transaction.inputs@[j]).txid@ == sel[j].txid@
            &&& a.transaction.inputs@[j].vout == sel[j].vout
            &&& a.transaction.inputs@[j].script_sig@.len() == 0
            &&& a.transaction.inputs@[j].sequence == SEQUENCE_MAX
            &&& a.prevouts@[j].value == sel[j].amount
            &&& a.prevouts@[j].script_pubkey@ == sel[j].script_pubkey@
        }
}

/// Everything setup guarantees of a produced artifact: the raw bytes are
/// the transaction's serialization; the inputs come one-for-one (with
/// parity to the previous-output list) from a height-sorted selection of
/// the discovered outputs, capped at the level's input cap; the single
/// output pays the payout script the selection's total minus the fee; and
/// every input carries the signature the engine produced for it.
pub open spec fn spec_artifact_ok(
    a: ChallengeArtifact,
    level: Level,
    keys: LevelKeys,
    found: Seq<Utxo>,
    payout_script: Seq<u8>,
) -> bool {
    let t = a.transaction;
    let cfg = spec_level_config(level);
    let n = t.inputs@.len();
    &&& a.raw@ == spec_ser_tx(t)
    &&& a.prevouts@.len() == n
    &&& 1 <= n <= cfg.input_cap
    &&& n == (if found.len() <= cfg.input_cap {
        found.len() as int
    } else {
        cfg.input_cap as int
    })
    &&& t.outputs@.len() == 1
    &&& t.outputs@[0].script_pubkey@ == payout_script
    &&& t.outputs@[0].value == a.total_input - spec_skeleton_vsize(n) * cfg.fee_rate
    &&& spec_skeleton_vsize(n) * cfg.fee_rate < a.total_input
    &&& spec_witnesses_signed_shape(t)
    &&& exists|unsigned: Transaction|
        spec_all_witnesses_empty(unsigned) && #[trigger] spec_fully_signed(
            t,
            unsigned,
            a.prevouts@,
            spec_signing_key(keys),
        )
    &&& exists|sel: Seq<Utxo>|
        {
            &&& sel.len() == n
            &&& #[trigger] spec_valid_selection(sel, found, cfg.input_cap as int)
            &&& a.total_input == spec_sum_amounts(sel)
            &&& spec_artifact_spends(a, sel)
        }
}

/// Assembles and signs the challenge transaction from the discovered
/// outputs: selects up to the level's input cap oldest-first, builds the
/// skeleton paying the payout script, rewrites its amount for the fee,
/// signs every input with the level's key (tweaked when committed), and
/// serializes the result.
#[verifier::rlimit(60)]
pub fn setup_artifact(
    level: &Level,
    keys: &LevelKeys,
    utxos: Vec<Utxo>,
    payout_script: Vec<u8>,
) -> (r: Result<ChallengeArtifact, CtfError>)
    ensures
        r == Err::<ChallengeArtifact, CtfError>(CtfError::NoSpendableOutputs) <==> utxos@.len()
            == 0,
        r == Err::<ChallengeArtifact, CtfError>(CtfError::ValueOverflow) ==> exists|sel: Seq<Utxo>|
            #[trigger] spec_valid_selection(
                sel,
                utxos@,
                spec_level_config(*level).input_cap as int,
            ) && spec_sum_amounts(sel) > 0xffff_ffff_ffff_ffff,
        r == Err::<ChallengeArtifact, CtfError>(CtfError::InsufficientFunds) ==> exists|
            sel: Seq<Utxo>,
        |
            #[trigger] spec_valid_selection(
                sel,
                utxos@,
                spec_level_config(*level).input_cap as int,
            ) && spec_sum_amounts(sel) <= 0xffff_ffff_ffff_ffff && spec_skeleton_vsize(sel.len())
                * spec_level_config(*level).fee_rate >= spec_sum_amounts(sel),
        r == Err::<ChallengeArtifact, CtfError>(CtfError::SighashFailed) ==> exists|
            unsigned: Transaction,
            sel: Seq<Utxo>,
            j: int,
        |
            #![trigger spec_finalized_skeleton(
                unsigned,
                sel,
                payout_script@,
                spec_level_config(*level).fee_rate,
            ), spec_taproot_sighash(
                spec_ser_tx_stripped(unsigned),
                spec_selection_values(sel),
                spec_selection_scripts(sel),
                j,
            )]
            spec_valid_selection(sel, utxos@, spec_level_config(*level).input_cap as int)
                && spec_finalized_skeleton(
                unsigned,
                sel,
                payout_script@,
                spec_level_config(*level).fee_rate,
            ) && 0 <= j < sel.len() && spec_taproot_sighash(
                spec_ser_tx_stripped(unsigned),
                spec_selection_values(sel),
                spec_selection_scripts(sel),
                j,
            ) is None,
        r == Err::<ChallengeArtifact, CtfError>(CtfError::InvalidSecretKey) ==> !spec_seckey_valid(
            keys.secret_key@,
        ),
        r == Err::<ChallengeArtifact, CtfError>(CtfError::InvalidTweak) ==> (keys.tweak matches Some(
            t,
        ) && spec_tweaked_seckey(keys.secret_key@, t@) is None),
        r matches Err(e) ==> e == CtfError::NoSpendableOutputs || e == CtfError::ValueOverflow || e
            == CtfError::InsufficientFunds || e == CtfError::SighashFailed || e
            == CtfError::InvalidSecretKey || (e == CtfError::InvalidTweak && keys.tweak is Some),
        r matches Ok(a) ==> spec_artifact_ok(a, *level, *keys, utxos@, payout_script@),
{
    let config = level.config();
    if utxos.len() == 0 {
        return Err(CtfError::NoSpendableOutputs);
    }
    let selected = select_utxos(utxos, config.input_cap);
    let n = selected.len();

    let mut entries: Vec<([u8; 32], u32)> = Vec::new();
    let mut prevouts: Vec<TxOut> = Vec::new();
    let mut sum: u128 = 0;
    let mut j: usize = 0;
    while j < n
        invariant
            n == selected@.len(),
            n <= INPUT_CAP,
            j <= n,
            entries@.len() == j,
            prevouts@.len() == j,
            forall|k: int|
                0 <= k < j ==> (#[trigger] entries@[k]).0 == selected@[k].txid && entries@[k].1
                    == selected@[k].vout,
            forall|k: int|
                0 <= k < j ==> (#[trigger] prevouts@[k]).value == selected@[k].amount
                    && prevouts@[k].script_pubkey@ == selected@[k].script_pubkey@,
            sum == spec_sum_amounts(selected@.take(j as int)),
            sum <= (j as u128) * 0xffff_ffff_ffff_ffffu128,
        decreases n - j,
    {
        entries.push((selected[j].txid, selected[j].vout));
        let sc = selected[j].script_pubkey.clone();
        proof {
            assert(sc@ =~= selected@[j as int].script_pubkey@);
        }
        prevouts.push(TxOut { value: selected[j].amount, script_pubkey: sc });
        proof {
            assert(selected@.take(j + 1).drop_last() =~= selected@.take(j as int));
            assert(selected@.take(j + 1).last() == selected@[j as int]);
        }
        sum = sum + (selected[j].amount as u128);
        j = j + 1;
    }
    proof {
        assert(selected@.take(n as int) =~= selected@);
    }
    if sum > 0xffff_ffff_ffff_ffffu128 {
        proof {
            assert(spec_valid_selection(
                selected@,
                utxos@,
                spec_level_config(*level).input_cap as int,
            ));
            assert(spec_sum_amounts(selected@) > 0xffff_ffff_ffff_ffff);
        }
        return Err(CtfError::ValueOverflow);
    }
    let total: u64 = sum as u64;

    let mut tx = build_skeleton(0, &entries);
    proof {
        assert(spec_all_witnesses_empty(tx));
        lemma_skeleton_vsize(tx);
        assert(spec_vsize(tx) == spec_skeleton_vsize(n as nat));
    }
    let ghost skeleton = tx;
    let ghost payout_view = payout_script@;
    match finalize_output(&mut tx, payout_script, total, config.fee_rate) {
        Ok(u) => u,
        Err(_) => {
            proof {
                assert(spec_valid_selection(
                    selected@,
                    utxos@,
                    spec_level_config(*level).input_cap as int,
                ));
                assert(spec_sum_amounts(selected@) <= 0xffff_ffff_ffff_ffff);
                assert(spec_skeleton_vsize(selected@.len()) * spec_level_config(*level).fee_rate
                    >= spec_sum_amounts(selected@));
            }
            return Err(CtfError::InsufficientFunds);
        },
    };
    proof {
        assert(spec_all_witnesses_empty(tx));
    }
    let ghost unsigned_tx = tx;
    let tweak_ref: Option<&[u8; 32]> = match &keys.tweak {
        Some(t) => Some(t),
        None => None,
    };
    proof {
        assert(keys.tweak matches Some(kt) ==> (tweak_ref matches Some(tr) && tr@ == kt@));
        assert(keys.tweak is None ==> tweak_ref is None);
        assert(spec_effective_seckey(keys.secret_key@, tweak_ref) == spec_signing_key(*keys));
        assert(spec_finalized_skeleton(
            unsigned_tx,
            selected@,
            payout_view,
            spec_level_config(*level).fee_rate,
        )) by {
            assert forall|jj: int|
                0 <= jj < selected@.len() implies spec_fresh_input(
                #[trigger] unsigned_tx.inputs@[jj],
                selected@[jj].txid@,
                selected@[jj].vout,
            ) by {
                assert(spec_fresh_input(
                    skeleton.inputs@[jj],
                    entries@[jj].0@,
                    entries@[jj].1,
                ));
                assert(unsigned_tx.inputs@[jj] == skeleton.inputs@[jj]);
                assert(entries@[jj].0 == selected@[jj].txid);
            }
        }
    }
    match sign_all_inputs(&mut tx, &prevouts, &keys.secret_key, tweak_ref) {
        Ok(u) => u,
        Err(e) => {
            proof {
                assert(spec_valid_selection(
                    selected@,
                    utxos@,
                    spec_level_config(*level).input_cap as int,
                ));
                if e == CtfError::SighashFailed {
                    let jw = choose|j: int|
                        0 <= j < unsigned_tx.inputs@.len() && (#[trigger] spec_input_digest(
                            unsigned_tx,
                            prevouts@,
                            j,
                        )) is None;
                    assert(spec_prevout_values(prevouts@) =~= spec_selection_values(selected@));
                    assert(spec_prevout_scripts(prevouts@) =~= spec_selection_scripts(selected@));
                    assert(spec_taproot_sighash(
                        spec_ser_tx_stripped(unsigned_tx),
                        spec_selection_values(selected@),
                        spec_selection_scripts(selected@),
                        jw,
                    ) is None);
                    assert(0 <= jw < selected@.len());
                }
            }
            return Err(e);
        },
    };
    let raw = serialize_tx(&tx);
    proof {
        lemma_witness_shape(
            tx,
            unsigned_tx,
            prevouts@,
            spec_effective_seckey(keys.secret_key@, tweak_ref),
        );
        let cfg = spec_level_config(*level);
        assert(spec_fully_signed(tx, unsigned_tx, prevouts@, spec_signing_key(*keys)));
        assert(unsigned_tx.inputs == skeleton.inputs);
        assert(tx.inputs@.len() == n);
        assert forall|jj: int| 0 <= jj < n implies {
            &&& (#[trigger] tx.inputs@[jj]).txid@ == selected@[jj].txid@
            &&& tx.inputs@[jj].vout == selected@[jj].vout
            &&& tx.inputs@[jj].script_sig@.len() == 0
            &&& tx.inputs@[jj].sequence == SEQUENCE_MAX
            &&& prevouts@[jj].value == selected@[jj].amount
            &&& prevouts@[jj].script_pubkey@ == selected@[jj].script_pubkey@
        } by {
            assert(crate::tx::spec_fresh_input(
                skeleton.inputs@[jj],
                entries@[jj].0@,
                entries@[jj].1,
            ));
            assert(unsigned_tx.inputs@[jj] == skeleton.inputs@[jj]);
            assert(crate::engine::spec_same_input_ref(
                tx.inputs@[jj],
                unsigned_tx.inputs@[jj],
            ));
            assert(entries@[jj].0 == selected@[jj].txid);
        }
        assert(total == spec_sum_amounts(selected@));
        assert(tx.outputs@[0].value == total - spec_skeleton_vsize(n as nat) * cfg.fee_rate);
        assert(spec_valid_selection(selected@, utxos@, cfg.input_cap as int));
        assert(spec_witnesses_signed_shape(tx));
    }
    let artifact = ChallengeArtifact { transaction: tx, raw, prevouts, total_input: total };
    proof {
        assert(spec_artifact_spends(artifact, selected@));
        assert(spec_artifact_ok(artifact, *level, *keys, utxos@, payout_script@));
    }
    Ok(artifact)
}

/// One challenge run stepping through its linear phases. No transition
/// can be skipped, repeated or reversed.
pub struct ChallengeRun {
    pub level: Level,
    pub config: LevelConfig,
    pub phase: Phase,
    pub outcome: Option<bool>,
}

impl ChallengeRun {
    /// A run at its starting phase for the given level.
    pub fn new(level: Level) -> (r: Self)
        ensures
            r.level == level,
            r.config == spec_level_config(level),
            r.phase == Phase::Setup,
            r.outcome is None,
    {
        let config = level.config();
        ChallengeRun { level, config, phase: Phase::Setup, outcome: None }
    }

    /// Setup finished: the signed artifact exists and the run is armed.
    pub fn arm(&mut self)
        requires
            old(self).phase == Phase::Setup,
        ensures
            final(self).phase == Phase::Armed,
            final(self).level == old(self).level,
            final(self).config == old(self).config,
            final(self).outcome == old(self).outcome,
    {
        self.phase = Phase::Armed;
    }

    /// The countdown window opens.
    pub fn start_countdown(&mut self)
        requires
            old(self).phase == Phase::Armed,
        ensures
            final(self).phase == Phase::Countdown,
            final(self).level == old(self).level,
            final(self).config == old(self).config,
            final(self).outcome == old(self).outcome,
    {
        self.phase = Phase::Countdown;
    }

    /// The countdown expired and the stored transaction was broadcast:
    /// records exactly one outcome, the broadcast result mapped through
    /// the level's configured direction.
    pub fn resolve(&mut self, broadcast_accepted: bool)
        requires
            old(self).phase == Phase::Countdown,
        ensures
            final(self).phase == Phase::Resolved,
            final(self).level == old(self).level,
            final(self).config == old(self).config,
            final(self).outcome == Some(spec_outcome(old(self).config, broadcast_accepted)),
    {
        let passed = resolve_outcome(&self.config, broadcast_accepted);
        self.phase = Phase::Resolved;
        self.outcome = Some(passed);
    }

    /// Chain resources are released and the run is over.
    pub fn cleanup(&mut self)
        requires
            old(self).phase == Phase::Resolved,
        ensures
            final(self).phase == Phase::CleanedUp,
            final(self).level == old(self).level,
            final(self).config == old(self).config,
            final(self).outcome == old(self).outcome,
    {
        self.phase = Phase::CleanedUp;
    }

    /// Whether the run was passed; meaningful once resolved.
    pub fn passed(&self) -> (r: bool)
        requires
            self.outcome is Some,
        ensures
            self.outcome == Some(r),
    {
        match self.outcome {
            Some(b) => b,
            None => false,
        }
    }

    /// The score the run awards: the level score on a pass, nothing on a
    /// fail.
    pub fn score(&self) -> (s: u32)
        requires
            self.outcome is Some,
        ensures
            self.outcome == Some(true) ==> s == LEVEL_SCORE,
            self.outcome == Some(false) ==> s == 0,
    {
        match self.outcome {
            Some(true) => LEVEL_SCORE,
            _ => 0,
        }
    }
}

/// The game: its persistent progress record. Loading and saving that
/// record is a collaborator's concern; the game logic works on the value.
pub struct Ctf {
    pub state: State,
}

impl Ctf {
    /// A game over the given progress record.
    pub fn new(state: State) -> (c: Self)
        ensures
            c.state == state,
    {
        Ctf { state }
    }

    /// Records a finished run in the game state: a passed run completes
    /// the level with its score.
    pub fn record_run(&mut self, run: &ChallengeRun) -> (advanced: bool)
        requires
            run.outcome is Some,
            spec_level_number(run.level) < 0xffff_ffffu32,
        ensures
            run.outcome == Some(true) ==> advanced && final(self).state.completed_levels@ == old(
                self,
            ).state.completed_levels@.push(
                crate::state::CtfLevel {
                    level: spec_level_number(run.level),
                    score: LEVEL_SCORE,
                },
            ) && final(self).state.current_level == spec_level_number(run.level) + 1,
            run.outcome == Some(false) ==> !advanced && *final(self) == *old(self),
    {
        if run.passed() {
            let score = run.score();
            self.state.complete_level(run.level.number(), score);
            true
        } else {
            false
        }
    }
}

} // verus!
