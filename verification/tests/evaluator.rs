use ityfuzz::corpus::{EVMState, Input, InfantStateCorpus};
use ityfuzz::fuzzer::{
    classify, coverage_hash, solution_exits_process, ExecuteInputResult, ExecutionObservation,
    Feedback, FuzzerState, ItyFuzzer,
};
use ityfuzz::u256::U256;

fn small_state() -> EVMState {
    EVMState { storage: Vec::new() }
}

fn sample_input(fav: u64, state_idx: usize) -> Input {
    Input {
        caller: vec![0u8; 20],
        txn_value: U256 { limb0: 0, limb1: 0, limb2: 0, limb3: 0 },
        calldata: vec![0xde, 0xad, 0xbe, 0xef, 0x01],
        state_idx,
        sstate: small_state(),
        fav_factor: fav,
        is_step: false,
        types_vec: vec![1, 2],
    }
}

fn fresh_fuzzer() -> ItyFuzzer {
    ItyFuzzer::new(
        Feedback::new(),
        Feedback::new(),
        Feedback::new(),
        String::from("corpus"),
    )
}

fn observation(
    reverted: bool,
    infant: bool,
    objective: bool,
    coverage: bool,
    branch: bool,
) -> ExecutionObservation {
    ExecutionObservation {
        reverted,
        new_state: small_state(),
        infant_interesting: infant,
        objective_interesting: objective,
        coverage_interesting: coverage,
        branch_distance_interesting: branch,
    }
}

#[test]
fn coverage_hash_known_values() {
    assert_eq!(coverage_hash(&vec![]), 0xcbf29ce484222325);
    assert_eq!(coverage_hash(&vec![1, 2, 3]), 0xd0aa6218672cf5ab);
    assert_eq!(coverage_hash(&vec![0, 0, 0, 0]), 0x4d25767f9dce13f5);
}

#[test]
fn classify_reverted_is_never_solution() {
    assert_eq!(
        classify(true, true, true, true),
        ExecuteInputResult::Corpus
    );
    assert_eq!(
        classify(true, false, true, false),
        ExecuteInputResult::NoneResult
    );
    assert_eq!(
        classify(true, false, false, false),
        ExecuteInputResult::Solution
    );
    assert_eq!(
        classify(false, true, false, false),
        ExecuteInputResult::Corpus
    );
    assert_eq!(
        classify(false, false, false, true),
        ExecuteInputResult::Corpus
    );
    assert_eq!(
        classify(false, false, false, false),
        ExecuteInputResult::NoneResult
    );
}

#[test]
fn reverted_execution_keeps_infant_corpus() {
    let mut fuzzer = fresh_fuzzer();
    let mut state = FuzzerState::new();
    let coverage = vec![1u8, 2, 3];
    let (res, idx) = fuzzer.evaluate_input_events(
        &mut state,
        sample_input(1, 0),
        observation(true, true, true, false, false),
        &coverage,
    );
    assert_eq!(state.infant_states.states.len(), 0);
    assert_ne!(res, ExecuteInputResult::Solution);
    assert_eq!(idx, None);
    assert_eq!(state.executions, 1);
}

#[test]
fn infant_state_added_with_provenance() {
    // Scenario: a non-reverting execution whose reached state the infant
    // feedback accepts grows the infant corpus by exactly one, tagged
    // with the input's originating state index.
    let mut fuzzer = fresh_fuzzer();
    let mut state = FuzzerState::new();
    let coverage = vec![9u8, 9];
    let (_, _) = fuzzer.evaluate_input_events(
        &mut state,
        sample_input(1, 7),
        observation(false, true, false, false, false),
        &coverage,
    );
    assert_eq!(state.infant_states.states.len(), 1);
    assert_eq!(state.infant_states.states[0].provenance, Some(7));
    assert!(state.infant_states.states[0].initialized);
}

#[test]
fn solution_appends_and_requests_exit() {
    // Scenario: a confirmed objective on a non-reverted execution is a
    // solution; without run-forever the process exit is requested.
    let mut fuzzer = fresh_fuzzer();
    let mut state = FuzzerState::new();
    fuzzer.objective.observe(42);
    let coverage = vec![5u8];
    let (res, idx) = fuzzer.evaluate_input_events(
        &mut state,
        sample_input(1, 0),
        observation(false, false, true, false, false),
        &coverage,
    );
    assert_eq!(res, ExecuteInputResult::Solution);
    assert_eq!(idx, None);
    assert_eq!(state.solutions.len(), 1);
    assert_eq!(state.solutions[0].meta, Some(42));
    assert_eq!(state.corpus.count(), 0);
    assert!(solution_exits_process(res, false));
    assert!(!solution_exits_process(res, true));
}

#[test]
fn minimizer_keeps_most_favorable_of_equal_coverage() {
    // Scenario: two inputs with the same coverage, favorabilities 3 and
    // 7; only the second remains, and the minimizer map points at it.
    let mut fuzzer = fresh_fuzzer();
    let mut state = FuzzerState::new();
    let coverage = vec![1u8, 2, 3];
    let hash = coverage_hash(&coverage);

    let (res1, idx1) = fuzzer.evaluate_input_events(
        &mut state,
        sample_input(3, 0),
        observation(false, false, false, true, false),
        &coverage,
    );
    assert_eq!(res1, ExecuteInputResult::Corpus);
    assert_eq!(idx1, Some(0));
    assert_eq!(fuzzer.minimizer_map.get(&hash), Some(&(0, 3)));

    let (res2, idx2) = fuzzer.evaluate_input_events(
        &mut state,
        sample_input(7, 0),
        observation(false, false, false, false, false),
        &coverage,
    );
    assert_eq!(res2, ExecuteInputResult::NoneResult);
    assert_eq!(idx2, Some(1));
    assert_eq!(state.corpus.count(), 1);
    assert!(state.corpus.entries[0].is_none());
    assert!(state.corpus.entries[1].is_some());
    assert_eq!(fuzzer.minimizer_map.get(&hash), Some(&(1, 7)));
}

#[test]
fn less_favorable_duplicate_is_discarded() {
    let mut fuzzer = fresh_fuzzer();
    let mut state = FuzzerState::new();
    let coverage = vec![1u8, 2, 3];
    let hash = coverage_hash(&coverage);

    let (_, _) = fuzzer.evaluate_input_events(
        &mut state,
        sample_input(5, 0),
        observation(false, false, false, true, false),
        &coverage,
    );
    let (res, idx) = fuzzer.evaluate_input_events(
        &mut state,
        sample_input(2, 0),
        observation(false, false, false, false, false),
        &coverage,
    );
    assert_eq!(res, ExecuteInputResult::NoneResult);
    assert_eq!(idx, None);
    assert_eq!(state.corpus.count(), 1);
    assert_eq!(fuzzer.minimizer_map.get(&hash), Some(&(0, 5)));
}

#[test]
fn branch_distance_escalates_to_corpus() {
    let mut fuzzer = fresh_fuzzer();
    let mut state = FuzzerState::new();
    let coverage = vec![8u8];
    let (res, idx) = fuzzer.evaluate_input_events(
        &mut state,
        sample_input(1, 0),
        observation(false, false, false, false, true),
        &coverage,
    );
    assert_eq!(res, ExecuteInputResult::Corpus);
    assert_eq!(idx, Some(0));
    assert_eq!(state.corpus.count(), 1);
}

#[test]
fn discard_metadata_twice_is_harmless() {
    let mut feedback = Feedback::new();
    feedback.observe(9);
    feedback.discard_metadata();
    assert_eq!(feedback.pending, None);
    feedback.discard_metadata();
    assert_eq!(feedback.pending, None);
}

#[test]
fn feedback_append_moves_pending_into_entry() {
    let mut fuzzer = fresh_fuzzer();
    let mut state = FuzzerState::new();
    fuzzer.feedback.observe(17);
    let coverage = vec![3u8, 1];
    let (res, idx) = fuzzer.evaluate_input_events(
        &mut state,
        sample_input(1, 0),
        observation(false, false, false, true, false),
        &coverage,
    );
    assert_eq!(res, ExecuteInputResult::Corpus);
    assert_eq!(idx, Some(0));
    assert_eq!(state.corpus.entries[0].as_ref().unwrap().meta, Some(17));
    assert_eq!(fuzzer.feedback.pending, None);
}

#[test]
fn infant_scheduler_weighted_selection() {
    let mut infants = InfantStateCorpus::new();
    let s0 = ityfuzz::corpus::StagedVMState {
        state: small_state(),
        initialized: true,
        provenance: None,
    };
    let s1 = ityfuzz::corpus::StagedVMState {
        state: small_state(),
        initialized: true,
        provenance: Some(0),
    };
    assert_eq!(infants.add(s0), 0);
    assert_eq!(infants.add(s1), 1);
    // votes are 1 each: draw 0 picks the first state, draw 1 the second
    assert_eq!(infants.next(0), 0);
    assert_eq!(infants.next(1), 1);
    // selection is deterministic for a fixed draw
    assert_eq!(infants.next(0), infants.next(0));
    // more votes widen the first state's interval
    infants.vote(0, 3);
    assert_eq!(infants.next(3), 0);
    assert_eq!(infants.next(4), 1);
}
