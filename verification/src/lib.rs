//! Core of a coverage- and feedback-guided fuzzer for smart-contract
//! bytecode: the evaluator that classifies each executed input as a new
//! corpus entry, a solution, or a discard; the dual corpus of transaction
//! sequences and reached contract states; corpus minimization keyed by
//! coverage hashes; and the batched execution stage that reconciles lane
//! verdicts from an external backend into the serial evaluation path.

pub mod abi;
pub mod config;
pub mod corpus;
pub mod disasm;
pub mod fuzzer;
pub mod instructions;
pub mod stage;
pub mod u256;

use vstd::prelude::*;

verus! {

} // verus!
