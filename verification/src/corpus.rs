//! The dual-corpus data model: fuzzing inputs, contract-state snapshots,
//! the primary corpus with stable recyclable indices, the infant-state
//! corpus with its vote-weighted scheduler, and the append-only solutions
//! store.

use vstd::prelude::*;
use crate::u256::U256;

verus! {

/// A snapshot of contract storage reached by some execution: the raw
/// key/value slots of the contract under test.
#[derive(Clone)]
pub struct EVMState {
    /// Storage slots as word pairs, one per occupied slot.
    pub storage: Vec<(U256, U256)>,
}

/// A contract state staged as a seed for further exploration, tagged with
/// the index of the input whose execution produced it.
#[derive(Clone)]
pub struct StagedVMState {
    /// The storage snapshot itself.
    pub state: EVMState,
    /// Whether the snapshot was produced by an execution, as opposed to the
    /// uninitialized placeholder an unbound input starts from.
    pub initialized: bool,
    /// Index of the input whose execution reached this state, when known.
    pub provenance: Option<usize>,
}

/// A transaction-sequence candidate: the values the engine reads of it,
/// laid out as plain data.
#[derive(Clone)]
pub struct Input {
    /// The 20-byte address the call is made from.
    pub caller: Vec<u8>,
    /// The value in wei attached to the call.
    pub txn_value: U256,
    /// The encoded call data, selector first.
    pub calldata: Vec<u8>,
    /// Index of the staged state this input extends.
    pub state_idx: usize,
    /// The storage the input starts executing from.
    pub sstate: EVMState,
    /// Scalar score used to rank same-coverage inputs for retention.
    pub fav_factor: u64,
    /// True for the continuation half of a stepped (multi-transaction) input.
    pub is_step: bool,
    /// Descriptor of the input's argument types, one tag per argument.
    pub types_vec: Vec<u8>,
}

/// One retained testcase of the primary corpus or the solutions store.
#[derive(Clone)]
pub struct CorpusEntry {
    /// The input itself.
    pub input: Input,
    /// Metadata appended by the feedback that accepted the entry.
    pub meta: Option<u64>,
    /// Hash of the coverage map the input produced when it was accepted.
    pub cov_hash: u64,
}

/// The primary corpus. Slots are append-only and stable: removing an entry
/// leaves a dead slot, so live indices are never silently rebound.
pub struct Corpus {
    /// One slot per index ever assigned; `None` marks a removed entry.
    pub entries: Vec<Option<CorpusEntry>>,
}

impl Corpus {
    /// An empty corpus.
    pub fn new() -> (r: Corpus)
        ensures
            r.entries@.len() == 0,
    {
        Corpus { entries: Vec::new() }
    }

    /// Appends an entry and returns its fresh index.
    pub fn add(&mut self, e: CorpusEntry) -> (idx: usize)
        ensures
            idx == old(self).entries@.len(),
            final(self).entries@ == old(self).entries@.push(Some(e)),
    {
        let idx = self.entries.len();
        self.entries.push(Some(e));
        idx
    }

    /// Removes the entry at `idx`, leaving a dead slot.
    pub fn remove(&mut self, idx: usize)
        requires
            idx < old(self).entries@.len(),
        ensures
            final(self).entries@ == old(self).entries@.update(idx as int, None),
    {
        self.entries.set(idx, None);
    }

    /// Number of live entries.
    pub open spec fn spec_count(self) -> nat {
        Self::count_live(self.entries@)
    }

    /// Number of `Some` slots in a prefix-closed slot sequence.
    pub open spec fn count_live(s: Seq<Option<CorpusEntry>>) -> nat
        decreases s.len(),
    {
        if s.len() == 0 {
            0
        } else {
            Self::count_live(s.drop_last()) + (if s.last() is Some {
                1nat
            } else {
                0nat
            })
        }
    }

    /// Counts the live entries.
    pub fn count(&self) -> (n: usize)
        ensures
            n == self.spec_count(),
    {
        let mut n: usize = 0;
        let mut i: usize = 0;
        proof {
            assert(self.entries@.take(0) =~= Seq::<Option<CorpusEntry>>::empty());
        }
        while i < self.entries.len()
            invariant
                i <= self.entries@.len(),
                n == Self::count_live(self.entries@.take(i as int)),
                n <= i,
            decreases self.entries@.len() - i,
        {
            proof {
                assert(self.entries@.take(i + 1).drop_last() =~= self.entries@.take(i as int));
                assert(self.entries@.take(i + 1).last() == self.entries@[i as int]);
            }
            if self.entries[i].is_some() {
                n += 1;
            }
            i += 1;
        }
        proof {
            assert(self.entries@.take(self.entries@.len() as int) =~= self.entries@);
        }
        n
    }
}

/// The infant-state corpus together with its vote-weighted scheduler:
/// every stored state carries a positive vote, so every state remains
/// selectable.
pub struct InfantStateCorpus {
    /// The staged states, in insertion order; never shrinks.
    pub states: Vec<StagedVMState>,
    /// One positive vote count per state.
    pub votes: Vec<u64>,
    /// Sum of all votes.
    pub total_votes: u64,
}

/// Vote a state starts with when it is added.
pub const INITIAL_VOTE: u64 = 1;

impl InfantStateCorpus {
    /// Sum of the votes of the first `i` states.
    pub open spec fn prefix_votes(votes: Seq<u64>, i: int) -> int
        decreases i,
    {
        if i <= 0 {
            0
        } else {
            Self::prefix_votes(votes, i - 1) + votes[i - 1]
        }
    }

    /// Internal consistency: one positive vote per state, with the total
    /// kept in step.
    pub open spec fn wf(self) -> bool {
        &&& self.votes@.len() == self.states@.len()
        &&& forall|i: int| 0 <= i < self.votes@.len() ==> self.votes@[i] >= 1
        &&& self.total_votes == Self::prefix_votes(self.votes@, self.votes@.len() as int)
    }

    /// An empty infant-state corpus.
    pub fn new() -> (r: InfantStateCorpus)
        ensures
            r.wf(),
            r.states@.len() == 0,
    {
        InfantStateCorpus { states: Vec::new(), votes: Vec::new(), total_votes: 0 }
    }

    /// A longer prefix gains at least one vote per added state.
    proof fn lemma_prefix_votes_le(votes: Seq<u64>, i: int, j: int)
        requires
            0 <= i <= j <= votes.len(),
            forall|k: int| 0 <= k < votes.len() ==> votes[k] >= 1,
        ensures
            Self::prefix_votes(votes, i) + (j - i) <= Self::prefix_votes(votes, j),
        decreases j - i,
    {
        if i < j {
            Self::lemma_prefix_votes_le(votes, i, j - 1);
        }
    }

    /// Prefix sums depend only on the entries the prefix covers.
    proof fn lemma_prefix_votes_congruence(a: Seq<u64>, b: Seq<u64>, i: int)
        requires
            0 <= i,
            i <= a.len(),
            i <= b.len(),
            forall|k: int| 0 <= k < i ==> a[k] == b[k],
        ensures
            Self::prefix_votes(a, i) == Self::prefix_votes(b, i),
        decreases i,
    {
        if i > 0 {
            Self::lemma_prefix_votes_congruence(a, b, i - 1);
        }
    }

    /// Appends a state with the initial vote and returns its index.
    pub fn add(&mut self, s: StagedVMState) -> (idx: usize)
        requires
            old(self).wf(),
            old(self).total_votes <= u64::MAX - INITIAL_VOTE,
        ensures
            final(self).wf(),
            idx == old(self).states@.len(),
            final(self).states@ == old(self).states@.push(s),
            final(self).votes@ == old(self).votes@.push(INITIAL_VOTE),
    {
        let idx = self.states.len();
        self.states.push(s);
        self.votes.push(INITIAL_VOTE);
        self.total_votes = self.total_votes + INITIAL_VOTE;
        proof {
            Self::lemma_prefix_votes_congruence(
                self.votes@,
                old(self).votes@,
                old(self).votes@.len() as int,
            );
        }
        idx
    }

    /// Adds `amount` votes to the state at `idx`, raising its selection
    /// weight.
    pub fn vote(&mut self, idx: usize, amount: u64)
        requires
            old(self).wf(),
            idx < old(self).states@.len(),
            old(self).total_votes <= u64::MAX - amount,
        ensures
            final(self).wf(),
            final(self).states@ == old(self).states@,
            final(self).votes@ == old(self).votes@.update(idx as int, (old(self).votes@[idx as int]
                + amount) as u64),
    {
        let v = self.votes[idx];
        proof {
            Self::lemma_prefix_votes_le(old(self).votes@, 0, idx as int);
            Self::lemma_prefix_votes_le(old(self).votes@, idx + 1, old(self).votes@.len() as int);
        }
        self.votes.set(idx, v + amount);
        self.total_votes = self.total_votes + amount;
        proof {
            Self::lemma_prefix_votes_update(old(self).votes@, idx as int, (v + amount) as u64, old(
                self,
            ).votes@.len() as int);
        }
    }

    /// Updating one vote shifts every prefix sum past it by the difference.
    proof fn lemma_prefix_votes_update(votes: Seq<u64>, idx: int, v: u64, j: int)
        requires
            0 <= idx < votes.len(),
            0 <= j <= votes.len(),
        ensures
            j <= idx ==> Self::prefix_votes(votes.update(idx, v), j) == Self::prefix_votes(
                votes,
                j,
            ),
            j > idx ==> Self::prefix_votes(votes.update(idx, v), j) == Self::prefix_votes(votes, j)
                + v - votes[idx],
        decreases j,
    {
        if j > 0 {
            Self::lemma_prefix_votes_update(votes, idx, v, j - 1);
        }
    }

    /// Picks a state by vote-weighted selection from the random draw `r`:
    /// the chosen index is the one whose vote interval contains
    /// `r % total_votes`, so selection is a pure function of the stored
    /// votes and the draw.
    pub fn next(&self, r: u64) -> (idx: usize)
        requires
            self.wf(),
            self.states@.len() > 0,
        ensures
            idx < self.states@.len(),
            Self::prefix_votes(self.votes@, idx as int) <= r % self.total_votes
                < Self::prefix_votes(self.votes@, idx as int + 1),
    {
        proof {
            Self::lemma_prefix_votes_le(self.votes@, 0, self.votes@.len() as int);
        }
        let target = r % self.total_votes;
        let n = self.votes.len();
        let mut i: usize = 0;
        let mut acc: u64 = 0;
        loop
            invariant
                self.wf(),
                self.states@.len() > 0,
                n == self.votes@.len(),
                i < n,
                acc == Self::prefix_votes(self.votes@, i as int),
                target == r % self.total_votes,
                target < self.total_votes,
                acc <= target,
            decreases self.votes@.len() - i,
        {
            let v = self.votes[i];
            proof {
                Self::lemma_prefix_votes_le(self.votes@, i as int + 1, self.votes@.len() as int);
                assert(Self::prefix_votes(self.votes@, i as int + 1) == acc + v);
            }
            if target < acc + v {
                return i;
            }
            acc = acc + v;
            i = i + 1;
            proof {
                if i == self.votes@.len() {
                    assert(acc == Self::prefix_votes(self.votes@, self.votes@.len() as int));
                    assert(false);
                }
            }
        }
    }

    /// Every stored state is selectable: for each index there is a draw
    /// that `next` maps to it. Witness: the start of the index's vote
    /// interval.
    pub proof fn lemma_every_state_selectable(self, i: int)
        requires
            self.wf(),
            0 <= i < self.states@.len(),
        ensures
            exists|r: u64|
                Self::prefix_votes(self.votes@, i) <= #[trigger] (r % self.total_votes)
                    < Self::prefix_votes(self.votes@, i + 1),
    {
        Self::lemma_prefix_votes_le(self.votes@, 0, i);
        Self::lemma_prefix_votes_le(self.votes@, i, self.votes@.len() as int);
        let r = Self::prefix_votes(self.votes@, i) as u64;
        assert(Self::prefix_votes(self.votes@, i) < self.total_votes);
        vstd::arithmetic::div_mod::lemma_small_mod(r as nat, self.total_votes as nat);
        assert(r % self.total_votes == r);
        assert(Self::prefix_votes(self.votes@, i) <= r % self.total_votes < Self::prefix_votes(
            self.votes@,
            i + 1,
        ));
    }
}

} // verus!
