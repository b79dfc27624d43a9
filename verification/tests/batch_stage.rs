use ityfuzz::corpus::{EVMState, Input};
use ityfuzz::fuzzer::{
    coverage_hash, ExecuteCudaInputResult, ExecuteInputResult, ExecutionObservation, Feedback,
    FuzzerState, ItyFuzzer,
};
use ityfuzz::stage::{
    encode_seed, havoc_times, iterations, lane_reevaluated, marshal_storage, plan_batch,
    reconcile_seed, skip_batch_boost, unmarshal_storage, use_batch_path,
};
use ityfuzz::u256::U256;

fn word(x: u64) -> U256 {
    U256 { limb0: x, limb1: 0, limb2: 0, limb3: 0 }
}

fn base_input() -> Input {
    Input {
        caller: vec![0u8; 20],
        txn_value: word(0),
        calldata: vec![0xaa, 0xbb, 0xcc, 0xdd, 0x01, 0x02],
        state_idx: 3,
        sstate: EVMState { storage: vec![(word(1), word(2))] },
        fav_factor: 10,
        is_step: false,
        types_vec: vec![4, 4],
    }
}

#[test]
fn batch_path_needs_warmup_and_accelerator() {
    assert!(!use_batch_path(false, 10_000));
    assert!(!use_batch_path(true, 300));
    assert!(use_batch_path(true, 301));
}

#[test]
fn iterations_stay_in_bounds() {
    assert_eq!(iterations(0), 1);
    assert_eq!(iterations(127), 128);
    assert_eq!(iterations(128), 1);
    assert_eq!(iterations(5), 6);
}

#[test]
fn batch_boost_skip_rules() {
    let input = base_input();
    // a near-missed branch always boosts
    assert!(!skip_batch_boost(&input, true, 5));
    // without it, a tenth of the rounds sit out
    assert!(skip_batch_boost(&input, false, 5));
    assert!(!skip_batch_boost(&input, false, 55));
    // stepped inputs never batch
    let mut stepped = base_input();
    stepped.is_step = true;
    assert!(skip_batch_boost(&stepped, true, 55));
    // selector-only calldata never batches
    let mut short = base_input();
    short.calldata = vec![1, 2, 3, 4];
    assert!(skip_batch_boost(&short, true, 55));
}

#[test]
fn havoc_times_in_range() {
    assert_eq!(havoc_times(0, 0), 1);
    assert_eq!(havoc_times(0, 3), 4);
    assert_eq!(havoc_times(59, 2), 3);
    assert_eq!(havoc_times(60, 2), 1);
    assert_eq!(havoc_times(99, 3), 1);
}

#[test]
fn storage_marshals_key_then_value_little_endian() {
    let slots = vec![(word(1), word(2))];
    let bytes = marshal_storage(&slots);
    assert_eq!(bytes.len(), 64);
    assert_eq!(bytes[0], 1);
    assert_eq!(bytes[32], 2);
    for i in 1..32 {
        assert_eq!(bytes[i], 0);
        if i != 32 {
            assert_eq!(bytes[32 + i], 0);
        }
    }
}

#[test]
fn storage_roundtrips_through_marshal() {
    let slots = vec![
        (word(7), word(0xdead_beef)),
        (
            U256 { limb0: 1, limb1: 2, limb2: 3, limb3: 4 },
            U256 { limb0: 5, limb1: 6, limb2: 7, limb3: 8 },
        ),
    ];
    let bytes = marshal_storage(&slots);
    assert_eq!(bytes.len(), 128);
    let back = unmarshal_storage(&bytes).unwrap();
    assert_eq!(back, slots);
    // a ragged buffer is refused
    assert!(unmarshal_storage(&vec![0u8; 63]).is_none());
}

#[test]
fn seed_readback_roundtrips() {
    let caller: Vec<u8> = (1..=20u8).collect();
    let value = U256 { limb0: 0x1122, limb1: 0, limb2: 0, limb3: 0 };
    let calldata = vec![0xca, 0xfe, 0xba, 0xbe, 0x42];
    let buffer = encode_seed(&caller, &value, &calldata);
    assert_eq!(buffer.len(), 68 + 5);
    let out = reconcile_seed(base_input(), &buffer, calldata.len());
    assert_eq!(out.caller, caller);
    assert_eq!(out.txn_value, value);
    assert_eq!(out.calldata, calldata);
    // everything else is kept from the base input
    assert_eq!(out.state_idx, 3);
    assert_eq!(out.fav_factor, 10);
    assert_eq!(out.types_vec, vec![4, 4]);
}

#[test]
fn reconcile_reads_the_documented_layout() {
    let mut buffer = vec![0u8; 70];
    // caller arrives byte-reversed
    for i in 0..20 {
        buffer[i] = 20 - i as u8;
    }
    // big-endian value 0x0105 at bytes 32..64
    buffer[62] = 0x01;
    buffer[63] = 0x05;
    buffer[68] = 0x77;
    buffer[69] = 0x88;
    let out = reconcile_seed(base_input(), &buffer, 2);
    let expected_caller: Vec<u8> = (1..=20u8).collect();
    assert_eq!(out.caller, expected_caller);
    assert_eq!(out.txn_value, word(0x0105));
    assert_eq!(out.calldata, vec![0x77, 0x88]);
}

#[test]
fn only_interesting_and_buggy_lanes_reevaluate() {
    assert!(!lane_reevaluated(&ExecuteCudaInputResult::EXECNONE));
    assert!(!lane_reevaluated(&ExecuteCudaInputResult::EXECREVERTED));
    assert!(lane_reevaluated(&ExecuteCudaInputResult::EXECINTERESTING));
    assert!(lane_reevaluated(&ExecuteCudaInputResult::EXECBUGGY));
}

#[test]
fn batch_round_reevaluates_only_flagged_lane() {
    // Scenario: four lanes, lane 2 buggy, the rest unremarkable or
    // reverted; only lane 2 goes back through the serial evaluator and
    // the corpus grows by at most one.
    let verdicts = vec![
        ExecuteCudaInputResult::EXECNONE,
        ExecuteCudaInputResult::EXECREVERTED,
        ExecuteCudaInputResult::EXECBUGGY,
        ExecuteCudaInputResult::EXECNONE,
    ];
    let lanes = plan_batch(&verdicts);
    assert_eq!(lanes, vec![2]);

    let mut fuzzer = ItyFuzzer::new(
        Feedback::new(),
        Feedback::new(),
        Feedback::new(),
        String::from("corpus"),
    );
    let mut state = FuzzerState::new();
    let before = state.corpus.count();
    let coverage = vec![1u8, 2];
    for lane in &lanes {
        let _ = *lane;
        let obs = ExecutionObservation {
            reverted: false,
            new_state: EVMState { storage: Vec::new() },
            infant_interesting: false,
            objective_interesting: false,
            coverage_interesting: true,
            branch_distance_interesting: false,
        };
        let (res, _) = fuzzer.evaluate_input_events(&mut state, base_input(), obs, &coverage);
        assert_eq!(res, ExecuteInputResult::Corpus);
    }
    let after = state.corpus.count();
    assert!(after - before <= 1);
    assert_eq!(after - before, 1);
    let hash = coverage_hash(&coverage);
    assert!(fuzzer.minimizer_map.contains_key(&hash));
}
