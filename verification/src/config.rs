//! Startup configuration for the fuzzing engine: the flavour of feedback
//! driving the run, how on-chain storage is fetched, and the process-wide
//! toggles (run-forever, accelerator warm-up) that the stages consult.

use vstd::prelude::*;
use vstd::string::StrSliceExecFns;
use vstd::string::StringExecFns;

verus! {

/// Which feedback drives the fuzzing run.
#[derive(Clone, Copy, PartialEq, Eq, Structural, Debug)]
pub enum FuzzerTypes {
    CMP,
    DATAFLOW,
    BASIC,
}

/// How on-chain storage is pulled in when seeding from a deployed contract.
#[derive(Clone, Copy, PartialEq, Eq, Structural, Debug)]
pub enum StorageFetchingMode {
    Dump,
    All,
    OneByOne,
}

/// The storage-fetching mode named by `s`, if any.
pub open spec fn spec_storage_fetching_mode(s: Seq<char>) -> Option<StorageFetchingMode> {
    if s == "dump"@ {
        Some(StorageFetchingMode::Dump)
    } else if s == "all"@ {
        Some(StorageFetchingMode::All)
    } else if s == "onebyone"@ {
        Some(StorageFetchingMode::OneByOne)
    } else {
        None
    }
}

/// The fuzzer type named by `s`, if any.
pub open spec fn spec_fuzzer_type(s: Seq<char>) -> Option<FuzzerTypes> {
    if s == "cmp"@ {
        Some(FuzzerTypes::CMP)
    } else if s == "dataflow"@ {
        Some(FuzzerTypes::DATAFLOW)
    } else if s == "basic"@ {
        Some(FuzzerTypes::BASIC)
    } else {
        None
    }
}

/// True when the character sequences of `a` and `b` are equal.
fn str_eq(a: &str, b: &str) -> (r: bool)
    ensures
        r == (a@ == b@),
{
    let a_len = a.unicode_len();
    let b_len = b.unicode_len();
    if a_len != b_len {
        assert(a@ != b@) by {
            assert(a@.len() != b@.len());
        }
        return false;
    }
    let mut i: usize = 0;
    while i < a_len
        invariant
            i <= a_len,
            a_len == a@.len(),
            b_len == b@.len(),
            a_len == b_len,
            forall|j: int| 0 <= j < i ==> a@[j] == b@[j],
        decreases a_len - i,
    {
        if a.get_char(i) != b.get_char(i) {
            return false;
        }
        i += 1;
    }
    proof {
        assert(a@ =~= b@);
    }
    true
}

impl StorageFetchingMode {
    /// Parses a storage-fetching mode name; unknown names yield `None`.
    pub fn from_str(s: &str) -> (r: Option<Self>)
        ensures
            r == spec_storage_fetching_mode(s@),
    {
        if str_eq(s, "dump") {
            Some(StorageFetchingMode::Dump)
        } else if str_eq(s, "all") {
            Some(StorageFetchingMode::All)
        } else if str_eq(s, "onebyone") {
            Some(StorageFetchingMode::OneByOne)
        } else {
            None
        }
    }
}

impl FuzzerTypes {
    /// Parses a fuzzer type name; an unknown name is reported in the error.
    pub fn from_str(s: &str) -> (r: Result<Self, String>)
        ensures
            match r {
                Ok(t) => spec_fuzzer_type(s@) == Some(t),
                Err(e) => spec_fuzzer_type(s@) is None && e@ == "Unknown fuzzer type: "@ + s@,
            },
    {
        if str_eq(s, "cmp") {
            Ok(FuzzerTypes::CMP)
        } else if str_eq(s, "dataflow") {
            Ok(FuzzerTypes::DATAFLOW)
        } else if str_eq(s, "basic") {
            Ok(FuzzerTypes::BASIC)
        } else {
            let mut msg = String::from_str("Unknown fuzzer type: ");
            msg.append(s);
            Err(msg)
        }
    }
}

/// Startup configuration handed to the engine by the launcher. Collaborators
/// that live outside this core (oracles, on-chain endpoints, price feeds) are
/// configured by the launcher itself and are not recorded here.
pub struct Config {
    /// How to fetch storage when seeding from a live chain, if at all.
    pub onchain_storage_fetching: Option<StorageFetchingMode>,
    /// Whether the flash-loan oracle is armed.
    pub flashloan: bool,
    /// Whether concolic execution assists mutation.
    pub concolic: bool,
    /// Which feedback drives the run.
    pub fuzzer_type: FuzzerTypes,
    /// Replay a recorded transaction file instead of fuzzing, when set.
    pub replay_file: Option<String>,
    /// Directory that promoted inputs are dumped to.
    pub corpus_path: String,
    /// Path of the compiled accelerator module.
    pub ptx_path: String,
    /// Ordinal of the accelerator device to use.
    pub gpu_dev: i32,
    /// Keep fuzzing after the first confirmed solution.
    pub run_forever: bool,
    /// Path that coverage reports are written to.
    pub cov_path: String,
}

/// Size in bytes of one marshalled seed slot in the batch buffer.
pub const SEED_SIZE: usize = 2048;

/// Number of lanes evaluated per batch round.
pub const NJOBS: u32 = 1024;

/// Seconds of serial warm-up before the accelerator path may activate.
pub const STATS_CPU_DEFAULT: u64 = 300;

} // verus!
