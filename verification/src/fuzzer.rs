//! The evaluator at the heart of the engine: it classifies each executed
//! input as corpus-worthy, a solution, or a discard, promotes interesting
//! contract states into the infant-state corpus, and keeps the corpus
//! minimal through a coverage-hash keyed minimizer map.

use vstd::prelude::*;
use std::collections::HashMap;
use crate::corpus::{Corpus, CorpusEntry, EVMState, InfantStateCorpus, Input, StagedVMState, INITIAL_VOTE};

verus! {

/// Three-way classification of one execution. Decided once per execution
/// and never revisited; the corpus and solution outcomes are terminal.
#[derive(Clone, Copy, PartialEq, Eq, Structural, Debug)]
pub enum ExecuteInputResult {
    /// Nothing novel: the input is discarded (it may still replace a
    /// same-coverage entry of lower favorability).
    NoneResult,
    /// The coverage feedback found the input novel: it joins the corpus.
    Corpus,
    /// The objective feedback confirmed a bug: the input is a solution.
    Solution,
}

/// Per-lane verdict polled back from the batch-execution backend.
#[derive(Clone, Copy, PartialEq, Eq, Structural, Debug)]
pub enum ExecuteCudaInputResult {
    /// No special input.
    EXECNONE,
    /// The lane's execution reverted.
    EXECREVERTED,
    /// This input should be stored in the corpus.
    EXECINTERESTING,
    /// This input leads to a solution.
    EXECBUGGY,
    /// The lane narrowed a branch distance without new coverage.
    EXECLESSDISTANCE,
}

/// Bookkeeping half of a feedback oracle. Judging an execution is the
/// oracle's own business; what the engine tracks is the metadata the
/// oracle computed for the last judged execution, which is either moved
/// into the accepted corpus entry or discarded.
pub struct Feedback {
    /// Metadata from the most recent judgement, not yet placed.
    pub pending: Option<u64>,
}

impl Feedback {
    /// The feedback with its pending metadata dropped.
    pub open spec fn spec_discarded(self) -> Feedback {
        Feedback { pending: None }
    }

    /// A feedback with nothing pending.
    pub fn new() -> (r: Feedback)
        ensures
            r.pending is None,
    {
        Feedback { pending: None }
    }

    /// Records the metadata the oracle computed for the execution it just
    /// judged.
    pub fn observe(&mut self, meta: u64)
        ensures
            final(self).pending == Some(meta),
    {
        self.pending = Some(meta);
    }

    /// Moves the pending metadata into an accepted entry.
    pub fn append_metadata(&mut self, entry: &mut CorpusEntry)
        ensures
            final(entry).meta == old(self).pending,
            final(entry).input == old(entry).input,
            final(entry).cov_hash == old(entry).cov_hash,
            final(self).pending is None,
    {
        entry.meta = self.pending;
        self.pending = None;
    }

    /// Drops the pending metadata. Repeating the call neither errors nor
    /// mutates anything further.
    pub fn discard_metadata(&mut self)
        ensures
            *final(self) == old(self).spec_discarded(),
    {
        self.pending = None;
    }

    /// Discarding metadata is idempotent: a second discard leaves the
    /// feedback exactly as the first did.
    pub proof fn lemma_discard_metadata_idempotent(self)
        ensures
            self.spec_discarded().spec_discarded() == self.spec_discarded(),
    {
    }
}

/// The mutable fuzzing state driven by the single fuzz-loop thread: the
/// primary corpus, the infant-state corpus, the append-only solutions
/// store, and the global execution counter.
pub struct FuzzerState {
    /// Accepted inputs, under stable recyclable indices.
    pub corpus: Corpus,
    /// Interesting contract states staged as seeds.
    pub infant_states: InfantStateCorpus,
    /// Confirmed bug-triggering inputs; never removed.
    pub solutions: Vec<CorpusEntry>,
    /// Number of executions performed, counted even for reverts.
    pub executions: u64,
    /// Index of the input currently being fuzzed.
    pub current_input_idx: usize,
}

impl FuzzerState {
    /// Internal consistency of the state's own stores.
    pub open spec fn wf(self) -> bool {
        self.infant_states.wf()
    }

    /// A fresh state with empty stores.
    pub fn new() -> (r: FuzzerState)
        ensures
            r.wf(),
            r.corpus.entries@.len() == 0,
            r.infant_states.states@.len() == 0,
            r.solutions@.len() == 0,
            r.executions == 0,
            r.current_input_idx == 0,
    {
        FuzzerState {
            corpus: Corpus::new(),
            infant_states: InfantStateCorpus::new(),
            solutions: Vec::new(),
            executions: 0,
            current_input_idx: 0,
        }
    }

    /// Remembers which corpus index is being fuzzed.
    pub fn set_current_input_idx(&mut self, idx: usize)
        ensures
            final(self).current_input_idx == idx,
            final(self).corpus == old(self).corpus,
            final(self).infant_states == old(self).infant_states,
            final(self).solutions == old(self).solutions,
            final(self).executions == old(self).executions,
    {
        self.current_input_idx = idx;
    }
}

/// What one execution produced, as read back from the interpreter's side
/// channel and the three feedback oracles immediately after the run.
pub struct ExecutionObservation {
    /// Whether the execution reverted.
    pub reverted: bool,
    /// The contract state the execution ended in.
    pub new_state: EVMState,
    /// The infant-state feedback found the reached state interesting.
    pub infant_interesting: bool,
    /// The objective feedback confirmed a bug.
    pub objective_interesting: bool,
    /// The coverage feedback found the input novel.
    pub coverage_interesting: bool,
    /// The interpreter saw a comparison narrowly miss a branch.
    pub branch_distance_interesting: bool,
}

/// Initial accumulator of the coverage hash.
pub const COVERAGE_HASH_INIT: u64 = 0xcbf2_9ce4_8422_2325;

/// Byte multiplier of the coverage hash.
pub const COVERAGE_HASH_PRIME: u64 = 0x100_0000_01b3;

/// One step of the coverage hash: fold the next byte into the accumulator.
pub open spec fn spec_coverage_hash_step(h: u64, b: u8) -> u64 {
    vstd::wrapping::u64_specs::wrapping_mul(h ^ (b as u64), COVERAGE_HASH_PRIME)
}

/// Hash of a whole coverage map, folding its bytes left to right.
pub open spec fn spec_coverage_hash(s: Seq<u8>) -> u64
    decreases s.len(),
{
    if s.len() == 0 {
        COVERAGE_HASH_INIT
    } else {
        spec_coverage_hash_step(spec_coverage_hash(s.drop_last()), s.last())
    }
}

/// Hashes a coverage map, so the map itself need not be retained past the
/// execution that produced it.
pub fn coverage_hash(cov: &Vec<u8>) -> (h: u64)
    ensures
        h == spec_coverage_hash(cov@),
{
    let mut h: u64 = COVERAGE_HASH_INIT;
    let mut i: usize = 0;
    proof {
        assert(cov@.take(0) =~= Seq::<u8>::empty());
    }
    while i < cov.len()
        invariant
            i <= cov@.len(),
            h == spec_coverage_hash(cov@.take(i as int)),
        decreases cov@.len() - i,
    {
        proof {
            assert(cov@.take(i + 1).drop_last() =~= cov@.take(i as int));
            assert(cov@.take(i + 1).last() == cov@[i as int]);
        }
        h = (h ^ (cov[i] as u64)).wrapping_mul(COVERAGE_HASH_PRIME);
        i += 1;
    }
    proof {
        assert(cov@.take(cov@.len() as int) =~= cov@);
    }
    h
}

/// The classification decision: a confirmed objective on a non-reverted
/// execution is a solution; otherwise coverage novelty, or a near-missed
/// branch, admits the input to the corpus; otherwise nothing.
pub open spec fn spec_classify(
    is_solution: bool,
    is_corpus: bool,
    reverted: bool,
    branch_distance_interesting: bool,
) -> ExecuteInputResult {
    if is_solution && !reverted {
        ExecuteInputResult::Solution
    } else if is_corpus {
        ExecuteInputResult::Corpus
    } else if branch_distance_interesting {
        ExecuteInputResult::Corpus
    } else {
        ExecuteInputResult::NoneResult
    }
}

/// Classifies one execution. A reverted execution is never a solution.
pub fn classify(
    is_solution: bool,
    is_corpus: bool,
    reverted: bool,
    branch_distance_interesting: bool,
) -> (r: ExecuteInputResult)
    ensures
        r == spec_classify(is_solution, is_corpus, reverted, branch_distance_interesting),
        reverted ==> !(r is Solution),
{
    let mut res = ExecuteInputResult::NoneResult;
    if is_solution && !reverted {
        res = ExecuteInputResult::Solution;
    } else {
        if is_corpus {
            res = ExecuteInputResult::Corpus;
        }
    }
    if res == ExecuteInputResult::NoneResult && branch_distance_interesting {
        res = ExecuteInputResult::Corpus;
    }
    res
}

/// True when the process stops here: the first confirmed solution is
/// terminal unless run-forever is configured.
pub fn solution_exits_process(result: ExecuteInputResult, run_forever: bool) -> (b: bool)
    ensures
        b == (result is Solution && !run_forever),
{
    result == ExecuteInputResult::Solution && !run_forever
}

/// The replacement the minimizer offers for a candidate with favorability
/// `fav` whose coverage hashes to `hash`: the stored index is handed back
/// exactly when the candidate's favorability strictly exceeds the stored
/// one.
pub open spec fn spec_should_replace(
    m: Map<u64, (usize, u64)>,
    fav: u64,
    hash: u64,
) -> Option<(u64, u64, usize)> {
    if m.contains_key(hash) && fav > m[hash].1 {
        Some((hash, fav, m[hash].0))
    } else {
        None
    }
}

/// The fuzzer's own bookkeeping around the shared state: the metadata
/// halves of the three feedback oracles and the corpus-minimizer map from
/// coverage hash to the retained entry's index and favorability.
pub struct ItyFuzzer {
    /// Coverage feedback bookkeeping.
    pub feedback: Feedback,
    /// Infant-state feedback bookkeeping.
    pub infant_feedback: Feedback,
    /// Objective (bug oracle) bookkeeping.
    pub objective: Feedback,
    /// Coverage hash of each retained entry, mapped to its corpus index
    /// and favorability.
    pub minimizer_map: HashMap<u64, (usize, u64)>,
    /// Directory promoted inputs are dumped to, when dumping is enabled.
    pub corpus_path: String,
    /// Code coverage last reported by the accelerator.
    pub cuda_cov: u64,
    /// Branch-distance bookkeeping: distance to a testcase index.
    pub distance_map: HashMap<usize, usize>,
}

impl ItyFuzzer {
    /// The minimizer-map invariant: every entry points at a currently live
    /// corpus slot whose recorded coverage hash is the entry's own key and
    /// whose input carries the recorded favorability; distinct keys point
    /// at distinct slots.
    pub open spec fn minimizer_wf(self, corpus: Corpus) -> bool {
        &&& forall|h: u64| #[trigger] self.minimizer_map@.contains_key(h) ==> {
            &&& self.minimizer_map@[h].0 < corpus.entries@.len()
            &&& corpus.entries@[self.minimizer_map@[h].0 as int] is Some
            &&& corpus.entries@[self.minimizer_map@[h].0 as int]->Some_0.cov_hash == h
            &&& corpus.entries@[self.minimizer_map@[h].0 as int]->Some_0.input.fav_factor
                == self.minimizer_map@[h].1
        }
        &&& forall|h1: u64, h2: u64|
            #![trigger self.minimizer_map@[h1], self.minimizer_map@[h2]]
            self.minimizer_map@.contains_key(h1) && self.minimizer_map@.contains_key(h2) && h1 != h2
                ==> self.minimizer_map@[h1].0 != self.minimizer_map@[h2].0
    }

    /// A fresh fuzzer with an empty minimizer map.
    pub fn new(
        feedback: Feedback,
        infant_feedback: Feedback,
        objective: Feedback,
        corpus_path: String,
    ) -> (r: ItyFuzzer)
        ensures
            r.feedback == feedback,
            r.infant_feedback == infant_feedback,
            r.objective == objective,
            r.corpus_path == corpus_path,
            r.minimizer_map@ == Map::<u64, (usize, u64)>::empty(),
            r.cuda_cov == 0,
            r.distance_map@ == Map::<usize, usize>::empty(),
            forall|c: Corpus| r.minimizer_wf(c),
    {
        let r = ItyFuzzer {
            feedback,
            infant_feedback,
            objective,
            minimizer_map: HashMap::new(),
            corpus_path,
            cuda_cov: 0,
            distance_map: HashMap::new(),
        };
        proof {
            assert(forall|c: Corpus| r.minimizer_wf(c)) by {
                assert(forall|h: u64| !r.minimizer_map@.contains_key(h));
            }
        }
        r
    }

    /// Records a just-added testcase in the minimizer map: its coverage
    /// hash now retains this index at this favorability.
    pub fn on_add_corpus(&mut self, input: &Input, coverage: &Vec<u8>, testcase_idx: usize)
        ensures
            final(self).minimizer_map@ == old(self).minimizer_map@.insert(
                spec_coverage_hash(coverage@),
                (testcase_idx, input.fav_factor),
            ),
            final(self).feedback == old(self).feedback,
            final(self).infant_feedback == old(self).infant_feedback,
            final(self).objective == old(self).objective,
            final(self).corpus_path == old(self).corpus_path,
            final(self).cuda_cov == old(self).cuda_cov,
            final(self).distance_map@ == old(self).distance_map@,
    {
        let hash = coverage_hash(coverage);
        self.minimizer_map.insert(hash, (testcase_idx, input.fav_factor));
    }

    /// Rebinds an existing minimizer-map entry to the replacement's index
    /// and favorability, in place.
    pub fn on_replace_corpus(&mut self, triple: (u64, u64, usize), new_testcase_idx: usize)
        requires
            old(self).minimizer_map@.contains_key(triple.0),
        ensures
            final(self).minimizer_map@ == old(self).minimizer_map@.insert(
                triple.0,
                (new_testcase_idx, triple.1),
            ),
            final(self).feedback == old(self).feedback,
            final(self).infant_feedback == old(self).infant_feedback,
            final(self).objective == old(self).objective,
            final(self).corpus_path == old(self).corpus_path,
            final(self).cuda_cov == old(self).cuda_cov,
            final(self).distance_map@ == old(self).distance_map@,
    {
        let (hash, new_fav_factor, _old_idx) = triple;
        self.minimizer_map.insert(hash, (new_testcase_idx, new_fav_factor));
    }

    /// Decides whether the candidate should replace a retained entry with
    /// identical coverage: it is offered a slot exactly when its
    /// favorability strictly exceeds the stored one.
    pub fn should_replace(&self, input: &Input, coverage: &Vec<u8>) -> (r: Option<
        (u64, u64, usize),
    >)
        ensures
            r == spec_should_replace(
                self.minimizer_map@,
                input.fav_factor,
                spec_coverage_hash(coverage@),
            ),
            r matches Some(t) ==> self.minimizer_map@.contains_key(t.0) && t.1 == input.fav_factor
                && t.1 > self.minimizer_map@[t.0].1,
    {
        let hash = coverage_hash(coverage);
        match self.minimizer_map.get(&hash) {
            Some(p) => {
                let testcase_idx = p.0;
                let fav_factor = p.1;
                let new_fav_factor = input.fav_factor;
                if new_fav_factor > fav_factor {
                    Some((hash, new_fav_factor, testcase_idx))
                } else {
                    None
                }
            },
            None => None,
        }
    }

    /// Applying an offered replacement never decreases the favorability
    /// the minimizer map stores for that coverage hash: the rebound entry
    /// carries the candidate's strictly greater favorability.
    pub proof fn lemma_replacement_favor_monotonic(
        m: Map<u64, (usize, u64)>,
        fav: u64,
        hash: u64,
        new_idx: usize,
    )
        requires
            spec_should_replace(m, fav, hash) is Some,
        ensures
            ({
                let t = spec_should_replace(m, fav, hash)->Some_0;
                m.insert(t.0, (new_idx, t.1))[t.0].1 > m[t.0].1
            }),
    {
    }

    /// Triage of one executed input: count the execution, stage the
    /// reached state if the infant feedback accepted it and the execution
    /// did not revert, classify, and promote into the corpus, the
    /// solutions store, or at most a minimizer replacement. Returns the
    /// classification and the corpus index the input landed at, if any.
    pub fn evaluate_input_events(
        &mut self,
        state: &mut FuzzerState,
        input: Input,
        obs: ExecutionObservation,
        coverage: &Vec<u8>,
    ) -> (r: (ExecuteInputResult, Option<usize>))
        requires
            old(self).minimizer_wf(old(state).corpus),
            old(state).wf(),
            old(state).executions < u64::MAX,
            old(state).infant_states.total_votes <= u64::MAX - INITIAL_VOTE,
        ensures
            final(self).minimizer_wf(final(state).corpus),
            final(state).wf(),
            final(state).executions == old(state).executions + 1,
            r.0 == spec_classify(
                obs.objective_interesting,
                obs.coverage_interesting,
                obs.reverted,
                obs.branch_distance_interesting,
            ),
            obs.reverted ==> !(r.0 is Solution),
            (obs.infant_interesting && !obs.reverted) ==> final(state).infant_states.states@
                == old(state).infant_states.states@.push(
                (StagedVMState {
                    state: obs.new_state,
                    initialized: true,
                    provenance: Some(input.state_idx),
                }),
            ),
            !(obs.infant_interesting && !obs.reverted) ==> final(state).infant_states.states@
                == old(state).infant_states.states@,
            r.0 is Solution ==> {
                &&& final(state).solutions@ == old(state).solutions@.push(
                    (CorpusEntry {
                        input: input,
                        meta: old(self).objective.pending,
                        cov_hash: spec_coverage_hash(coverage@),
                    }),
                )
                &&& final(state).corpus.entries@ == old(state).corpus.entries@
                &&& final(self).minimizer_map@ == old(self).minimizer_map@
                &&& r.1 is None
            },
            !(r.0 is Solution) ==> final(state).solutions@ == old(state).solutions@,
            r.0 is Corpus ==> ({
                let h = spec_coverage_hash(coverage@);
                let idx = old(state).corpus.entries@.len() as usize;
                &&& final(state).corpus.entries@ == old(state).corpus.entries@.push(
                    Some(
                        (CorpusEntry {
                            input: input,
                            meta: old(self).feedback.pending,
                            cov_hash: h,
                        }),
                    ),
                )
                &&& final(self).minimizer_map@ == old(self).minimizer_map@.insert(
                    h,
                    (idx, input.fav_factor),
                )
                &&& r.1 == Some(idx)
            }),
            r.0 is NoneResult ==> ({
                let h = spec_coverage_hash(coverage@);
                match spec_should_replace(old(self).minimizer_map@, input.fav_factor, h) {
                    Some(t) => {
                        let idx = old(state).corpus.entries@.len() as usize;
                        &&& final(state).corpus.entries@ == old(state).corpus.entries@.update(
                            t.2 as int,
                            None,
                        ).push(
                            Some(
                                (CorpusEntry {
                                    input: input,
                                    meta: old(self).feedback.pending,
                                    cov_hash: h,
                                }),
                            ),
                        )
                        &&& final(self).minimizer_map@ == old(self).minimizer_map@.insert(
                            h,
                            (idx, input.fav_factor),
                        )
                        &&& final(self).minimizer_map@[h].1 > old(self).minimizer_map@[h].1
                        &&& r.1 == Some(idx)
                    },
                    None => {
                        &&& final(state).corpus.entries@ == old(state).corpus.entries@
                        &&& final(self).minimizer_map@ == old(self).minimizer_map@
                        &&& r.1 is None
                    },
                }
            }),
            final(self).feedback.pending is None,
            final(self).objective.pending is None,
            final(self).infant_feedback == old(self).infant_feedback,
            final(self).corpus_path == old(self).corpus_path,
            final(self).cuda_cov == old(self).cuda_cov,
            final(self).distance_map@ == old(self).distance_map@,
            final(state).current_input_idx == old(state).current_input_idx,
    {
        state.executions = state.executions + 1;

        if obs.infant_interesting && !obs.reverted {
            let staged = StagedVMState {
                state: obs.new_state,
                initialized: true,
                provenance: Some(input.state_idx),
            };
            let _infant_idx = state.infant_states.add(staged);
        }

        let res = classify(
            obs.objective_interesting,
            obs.coverage_interesting,
            obs.reverted,
            obs.branch_distance_interesting,
        );

        match res {
            ExecuteInputResult::NoneResult => {
                self.objective.discard_metadata();
                match self.should_replace(&input, coverage) {
                    Some(triple) => {
                        let (hash, new_fav_factor, old_testcase_idx) = triple;
                        state.corpus.remove(old_testcase_idx);
                        let mut testcase = CorpusEntry { input, meta: None, cov_hash: hash };
                        self.feedback.append_metadata(&mut testcase);
                        let new_testcase_idx = state.corpus.add(testcase);
                        self.on_replace_corpus(
                            (hash, new_fav_factor, old_testcase_idx),
                            new_testcase_idx,
                        );
                        (res, Some(new_testcase_idx))
                    },
                    None => {
                        self.feedback.discard_metadata();
                        (res, None)
                    },
                }
            },
            ExecuteInputResult::Corpus => {
                self.objective.discard_metadata();
                let hash = coverage_hash(coverage);
                let idx = state.corpus.entries.len();
                self.on_add_corpus(&input, coverage, idx);
                let mut testcase = CorpusEntry { input, meta: None, cov_hash: hash };
                self.feedback.append_metadata(&mut testcase);
                let added_idx = state.corpus.add(testcase);
                (res, Some(added_idx))
            },
            ExecuteInputResult::Solution => {
                self.feedback.discard_metadata();
                let hash = coverage_hash(coverage);
                let mut testcase = CorpusEntry { input, meta: None, cov_hash: hash };
                self.objective.append_metadata(&mut testcase);
                state.solutions.push(testcase);
                (res, None)
            },
        }
    }
}

} // verus!
