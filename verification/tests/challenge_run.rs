use bitcoin_ctf::challenge::{
    finalize_output, resolve_outcome, setup_artifact, ChallengeRun, Ctf, Level, Phase,
};
use bitcoin_ctf::engine::verify_input_signature;
use bitcoin_ctf::errors::CtfError;
use bitcoin_ctf::keys::keys_from_seed;
use bitcoin_ctf::select::Utxo;
use bitcoin_ctf::state::State;
use bitcoin_ctf::tx::build_skeleton;

#[test]
fn level_configs() {
    let one = Level::One.config();
    assert_eq!(one.input_cap, 17);
    assert_eq!(one.countdown_secs, 60);
    assert_eq!(one.maturity_blocks, 118);
    assert_eq!(one.fee_rate, 2);
    assert!(one.use_commitment);
    assert!(one.pass_on_broadcast_failure);
    let two = Level::Two.config();
    assert!(!two.pass_on_broadcast_failure);
    assert_eq!(Level::One.number(), 1);
    assert_eq!(Level::Two.number(), 2);
}

#[test]
fn outcome_mapping_is_per_level() {
    // The same broadcast signal reads in opposite directions depending on
    // the level's configuration.
    let one = Level::One.config();
    let two = Level::Two.config();
    assert!(resolve_outcome(&one, false));
    assert!(!resolve_outcome(&one, true));
    assert!(!resolve_outcome(&two, false));
    assert!(resolve_outcome(&two, true));
}

#[test]
fn scenario_competing_spend_wins() {
    // The stored transaction's inputs were already spent by a competing
    // transaction, so the broadcast is rejected; the first level maps
    // that rejection to a pass.
    let mut run = ChallengeRun::new(Level::One);
    assert_eq!(run.phase, Phase::Setup);
    run.arm();
    assert_eq!(run.phase, Phase::Armed);
    run.start_countdown();
    assert_eq!(run.phase, Phase::Countdown);
    let broadcast_accepted = false;
    run.resolve(broadcast_accepted);
    assert_eq!(run.phase, Phase::Resolved);
    assert!(run.passed());
    assert_eq!(run.score(), 100);
    run.cleanup();
    assert_eq!(run.phase, Phase::CleanedUp);
}

#[test]
fn confirmed_broadcast_fails_first_level() {
    let mut run = ChallengeRun::new(Level::One);
    run.arm();
    run.start_countdown();
    run.resolve(true);
    assert!(!run.passed());
    assert_eq!(run.score(), 0);
}

#[test]
fn fee_is_vsize_times_rate() {
    // One input, empty scripts: 60 virtual bytes, so 120 satoshis at the
    // rate of 2.
    let entries = vec![([0xab; 32], 0u32)];
    let mut tx = build_skeleton(0, &entries);
    finalize_output(&mut tx, vec![0x51, 0x20, 0x99], 5_000_000_000, 2).unwrap();
    assert_eq!(tx.outputs[0].value, 4_999_999_880);
    assert_eq!(tx.outputs[0].script_pubkey, vec![0x51, 0x20, 0x99]);
}

#[test]
fn fee_exceeding_funds_is_refused() {
    let entries = vec![([0xab; 32], 0u32)];
    let mut tx = build_skeleton(0, &entries);
    assert_eq!(
        finalize_output(&mut tx, vec![0x51, 0x20, 0x99], 100, 2),
        Err(CtfError::InsufficientFunds)
    );
}

fn found_utxo(keys_script: &[u8], tag: u8, amount: u64, height: u64) -> Utxo {
    Utxo {
        txid: [tag; 32],
        vout: 0,
        amount,
        script_pubkey: keys_script.to_vec(),
        height: Some(height),
    }
}

#[test]
fn setup_assembles_and_signs_whole_challenge() {
    let keys = keys_from_seed([9u8; 32], true).unwrap();
    let payout = keys_from_seed([10u8; 32], false).unwrap();
    let utxos: Vec<Utxo> = (0..20)
        .map(|k| found_utxo(&keys.script_pubkey, k as u8, 5_000_000_000, 100 + k as u64))
        .collect();
    let artifact =
        setup_artifact(&Level::One, &keys, utxos, payout.script_pubkey.clone()).unwrap();

    assert_eq!(artifact.transaction.inputs.len(), 17);
    assert_eq!(artifact.prevouts.len(), 17);
    assert_eq!(artifact.total_input, 17 * 5_000_000_000);
    assert_eq!(artifact.transaction.outputs.len(), 1);
    assert_eq!(artifact.transaction.outputs[0].script_pubkey, payout.script_pubkey);
    // 17 inputs: 18 + 1 + 41 * 17 = 716 virtual bytes, 1432 satoshis fee.
    assert_eq!(artifact.transaction.outputs[0].value, 17 * 5_000_000_000 - 1432);
    assert_eq!(artifact.raw, bitcoin_ctf::encode::serialize_tx(&artifact.transaction));

    for j in 0..17 {
        let witness = &artifact.transaction.inputs[j].witness;
        assert_eq!(witness.len(), 1);
        assert_eq!(witness[0].len(), 65);
        assert_eq!(witness[0][64], 0x01);
        assert_eq!(
            verify_input_signature(&artifact.transaction, &artifact.prevouts, j, &keys.output_key),
            Ok(true)
        );
    }

    // The raw bytes decode as a valid consensus transaction.
    let decoded: bitcoin::Transaction = bitcoin::consensus::deserialize(&artifact.raw).unwrap();
    assert_eq!(decoded.input.len(), 17);
    assert_eq!(decoded.output.len(), 1);
}

#[test]
fn setup_without_outputs_is_refused() {
    let keys = keys_from_seed([9u8; 32], true).unwrap();
    assert!(matches!(
        setup_artifact(&Level::One, &keys, Vec::new(), vec![0x51, 0x20, 0x99]),
        Err(CtfError::NoSpendableOutputs)
    ));
}

#[test]
fn setup_with_overflowing_amounts_is_refused() {
    let keys = keys_from_seed([9u8; 32], true).unwrap();
    let utxos = vec![
        found_utxo(&keys.script_pubkey, 1, u64::MAX, 100),
        found_utxo(&keys.script_pubkey, 2, u64::MAX, 101),
    ];
    assert!(matches!(
        setup_artifact(&Level::One, &keys, utxos, vec![0x51, 0x20, 0x99]),
        Err(CtfError::ValueOverflow)
    ));
}

#[test]
fn game_state_records_progress() {
    let mut state = State::new();
    assert_eq!(state.current_level(), 1);
    state.complete_level(1, 100);
    assert_eq!(state.current_level(), 2);
    assert_eq!(state.get_level_score(1), Some(100));
    assert_eq!(state.get_level_score(2), None);
    state.initialize_state();
    assert_eq!(state.current_level(), 1);
    assert_eq!(state.get_level_score(1), None);
}

#[test]
fn passed_run_advances_the_game() {
    let mut ctf = Ctf::new(State::new());
    let mut run = ChallengeRun::new(Level::One);
    run.arm();
    run.start_countdown();
    run.resolve(false);
    assert!(ctf.record_run(&run));
    assert_eq!(ctf.state.current_level(), 2);
    assert_eq!(ctf.state.get_level_score(1), Some(100));
}

#[test]
fn failed_run_leaves_the_game_alone() {
    let mut ctf = Ctf::new(State::new());
    let mut run = ChallengeRun::new(Level::Two);
    run.arm();
    run.start_countdown();
    run.resolve(false);
    assert!(!ctf.record_run(&run));
    assert_eq!(ctf.state.current_level(), 1);
    assert_eq!(ctf.state.get_level_score(2), None);
}

#[test]
fn error_descriptions_are_distinct() {
    let errors = [
        CtfError::InvalidSecretKey,
        CtfError::KeyDerivationFailed,
        CtfError::InvalidTweak,
        CtfError::PrevoutCountMismatch,
        CtfError::InputIndexOutOfRange,
        CtfError::SighashFailed,
        CtfError::SigningFailed,
        CtfError::SignatureSelfCheckFailed,
        CtfError::MalformedWitness,
        CtfError::NoSpendableOutputs,
        CtfError::ValueOverflow,
        CtfError::InsufficientFunds,
    ];
    for (i, a) in errors.iter().enumerate() {
        for (j, b) in errors.iter().enumerate() {
            if i != j {
                assert_ne!(a.describe(), b.describe());
            }
        }
    }
}
