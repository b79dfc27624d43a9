//! The comparison and bitwise instructions of the contract interpreter,
//! operating on an explicit operand stack: each instruction charges its
//! gas, pops its operands, and leaves its result on top, halting the
//! interpreter on gas exhaustion or stack underflow.

use vstd::prelude::*;
use crate::u256::{u256_sar, u256_shl, u256_shr, U256};

verus! {

/// How an instruction left the interpreter.
#[derive(Clone, Copy, PartialEq, Eq, Structural, Debug)]
pub enum InstructionResult {
    /// Execution goes on with the next instruction.
    Continue,
    /// An instruction needed more operands than the stack holds.
    StackUnderflow,
    /// The remaining gas did not cover an instruction's cost.
    OutOfGas,
    /// The instruction belongs to a fork that is not enabled.
    NotActivated,
}

/// Gas cost of the comparison and bitwise instructions.
pub const VERYLOW: u64 = 3;

/// The interpreter state these instructions touch: the operand stack, the
/// gas budget, the halt reason, and whether the shift instructions' fork
/// is enabled.
pub struct Interpreter {
    /// Operand stack, top last.
    pub stack: Vec<U256>,
    /// Gas still available.
    pub gas_remaining: u64,
    /// Why execution halted, or `Continue`.
    pub instruction_result: InstructionResult,
    /// Whether the fork that introduced the shift instructions is active.
    pub constantinople: bool,
}

/// The first operand: the word on top of the stack, which is popped.
pub open spec fn spec_op1(pre: Interpreter) -> U256 {
    pre.stack@.last()
}

/// The second operand: the word beneath the top, overwritten by the
/// result.
pub open spec fn spec_op2(pre: Interpreter) -> U256 {
    pre.stack@[pre.stack@.len() - 2]
}

/// One for true, zero for false.
pub open spec fn spec_bool_word(b: bool) -> U256 {
    if b {
        U256 { limb0: 1, limb1: 0, limb2: 0, limb3: 0 }
    } else {
        U256 { limb0: 0, limb1: 0, limb2: 0, limb3: 0 }
    }
}

/// The interpreter halted for gas before touching anything else.
pub open spec fn spec_oog_post(pre: Interpreter, post: Interpreter) -> bool {
    &&& post.stack@ == pre.stack@
    &&& post.gas_remaining == pre.gas_remaining
    &&& post.instruction_result is OutOfGas
    &&& post.constantinople == pre.constantinople
}

/// The interpreter charged its gas, then found the stack short.
pub open spec fn spec_underflow_post(pre: Interpreter, post: Interpreter) -> bool {
    &&& post.stack@ == pre.stack@
    &&& post.gas_remaining == pre.gas_remaining - VERYLOW
    &&& post.instruction_result is StackUnderflow
    &&& post.constantinople == pre.constantinople
}

/// The instruction's fork is not enabled; nothing else was touched.
pub open spec fn spec_not_activated_post(pre: Interpreter, post: Interpreter) -> bool {
    &&& post.stack@ == pre.stack@
    &&& post.gas_remaining == pre.gas_remaining
    &&& post.instruction_result is NotActivated
    &&& post.constantinople == pre.constantinople
}

/// A two-operand instruction succeeded: gas charged, the top popped, and
/// the new top holds `v`.
pub open spec fn spec_binop_post(pre: Interpreter, post: Interpreter, v: U256) -> bool {
    &&& pre.stack@.len() >= 2
    &&& post.stack@ == pre.stack@.drop_last().update(pre.stack@.len() - 2, v)
    &&& post.gas_remaining == pre.gas_remaining - VERYLOW
    &&& post.instruction_result == pre.instruction_result
    &&& post.constantinople == pre.constantinople
}

/// A one-operand instruction succeeded: gas charged and the top replaced
/// by `v`.
pub open spec fn spec_unop_post(pre: Interpreter, post: Interpreter, v: U256) -> bool {
    &&& pre.stack@.len() >= 1
    &&& post.stack@ == pre.stack@.update(pre.stack@.len() - 1, v)
    &&& post.gas_remaining == pre.gas_remaining - VERYLOW
    &&& post.instruction_result == pre.instruction_result
    &&& post.constantinople == pre.constantinople
}

/// True when `a`'s unsigned value is below `b`'s.
fn word_below(a: &U256, b: &U256) -> (r: bool)
    ensures
        r == (a.as_nat() < b.as_nat()),
{
    if a.limb3 != b.limb3 {
        a.limb3 < b.limb3
    } else if a.limb2 != b.limb2 {
        a.limb2 < b.limb2
    } else if a.limb1 != b.limb1 {
        a.limb1 < b.limb1
    } else {
        a.limb0 < b.limb0
    }
}

/// True when `a`'s signed value is below `b`'s.
fn word_below_signed(a: &U256, b: &U256) -> (r: bool)
    ensures
        r == (a.as_int() < b.as_int()),
{
    let a_neg = a.limb3 >= 0x8000_0000_0000_0000;
    let b_neg = b.limb3 >= 0x8000_0000_0000_0000;
    if a_neg != b_neg {
        a_neg
    } else {
        word_below(a, b)
    }
}

/// True when the words hold the same value.
fn word_equals(a: &U256, b: &U256) -> (r: bool)
    ensures
        r == (a.as_nat() == b.as_nat()),
{
    proof {
        U256::lemma_as_nat_injective(*a, *b);
    }
    a.limb0 == b.limb0 && a.limb1 == b.limb1 && a.limb2 == b.limb2 && a.limb3 == b.limb3
}

/// Charges `VERYLOW` gas and pops the top operand, leaving the second on
/// top; reports whether the instruction may go on.
fn pop_top_binop(interpreter: &mut Interpreter) -> (r: Option<U256>)
    ensures
        old(interpreter).gas_remaining < VERYLOW ==> r is None && spec_oog_post(
            *old(interpreter),
            *final(interpreter),
        ),
        old(interpreter).gas_remaining >= VERYLOW && old(interpreter).stack@.len() < 2 ==> r is None
            && spec_underflow_post(*old(interpreter), *final(interpreter)),
        old(interpreter).gas_remaining >= VERYLOW && old(interpreter).stack@.len() >= 2 ==> {
            &&& r == Some(spec_op1(*old(interpreter)))
            &&& final(interpreter).stack@ == old(interpreter).stack@.drop_last()
            &&& final(interpreter).gas_remaining == old(interpreter).gas_remaining - VERYLOW
            &&& final(interpreter).instruction_result == old(interpreter).instruction_result
            &&& final(interpreter).constantinople == old(interpreter).constantinople
        },
{
    if interpreter.gas_remaining < VERYLOW {
        interpreter.instruction_result = InstructionResult::OutOfGas;
        return None;
    }
    interpreter.gas_remaining = interpreter.gas_remaining - VERYLOW;
    if interpreter.stack.len() < 2 {
        interpreter.instruction_result = InstructionResult::StackUnderflow;
        return None;
    }
    let op1 = interpreter.stack.pop().unwrap();
    proof {
        assert(interpreter.stack@ =~= old(interpreter).stack@.drop_last());
    }
    Some(op1)
}

/// Writes a binary instruction's result over the new stack top.
fn write_top(interpreter: &mut Interpreter, v: U256)
    requires
        old(interpreter).stack@.len() >= 1,
    ensures
        final(interpreter).stack@ == old(interpreter).stack@.update(
            old(interpreter).stack@.len() - 1,
            v,
        ),
        final(interpreter).gas_remaining == old(interpreter).gas_remaining,
        final(interpreter).instruction_result == old(interpreter).instruction_result,
        final(interpreter).constantinople == old(interpreter).constantinople,
{
    let n = interpreter.stack.len();
    interpreter.stack.set(n - 1, v);
}

/// Unsigned less-than: the new top is one when the popped word is below
/// the word beneath it.
pub fn lt(interpreter: &mut Interpreter)
    ensures
        old(interpreter).gas_remaining < VERYLOW ==> spec_oog_post(
            *old(interpreter),
            *final(interpreter),
        ),
        old(interpreter).gas_remaining >= VERYLOW && old(interpreter).stack@.len() < 2
            ==> spec_underflow_post(*old(interpreter), *final(interpreter)),
        old(interpreter).gas_remaining >= VERYLOW && old(interpreter).stack@.len() >= 2
            ==> spec_binop_post(
            *old(interpreter),
            *final(interpreter),
            spec_bool_word(
                spec_op1(*old(interpreter)).as_nat() < spec_op2(*old(interpreter)).as_nat(),
            ),
        ),
{
    let op1 = match pop_top_binop(interpreter) {
        Some(op1) => op1,
        None => {
            return ;
        },
    };
    let n = interpreter.stack.len();
    let op2 = interpreter.stack[n - 1];
    let v = if word_below(&op1, &op2) {
        U256::one()
    } else {
        U256::zero()
    };
    write_top(interpreter, v);
}

/// Unsigned greater-than.
pub fn gt(interpreter: &mut Interpreter)
    ensures
        old(interpreter).gas_remaining < VERYLOW ==> spec_oog_post(
            *old(interpreter),
            *final(interpreter),
        ),
        old(interpreter).gas_remaining >= VERYLOW && old(interpreter).stack@.len() < 2
            ==> spec_underflow_post(*old(interpreter), *final(interpreter)),
        old(interpreter).gas_remaining >= VERYLOW && old(interpreter).stack@.len() >= 2
            ==> spec_binop_post(
            *old(interpreter),
            *final(interpreter),
            spec_bool_word(
                spec_op1(*old(interpreter)).as_nat() > spec_op2(*old(interpreter)).as_nat(),
            ),
        ),
{
    let op1 = match pop_top_binop(interpreter) {
        Some(op1) => op1,
        None => {
            return ;
        },
    };
    let n = interpreter.stack.len();
    let op2 = interpreter.stack[n - 1];
    let v = if word_below(&op2, &op1) {
        U256::one()
    } else {
        U256::zero()
    };
    write_top(interpreter, v);
}

/// Signed less-than, over the words' two's-complement values.
pub fn slt(interpreter: &mut Interpreter)
    ensures
        old(interpreter).gas_remaining < VERYLOW ==> spec_oog_post(
            *old(interpreter),
            *final(interpreter),
        ),
        old(interpreter).gas_remaining >= VERYLOW && old(interpreter).stack@.len() < 2
            ==> spec_underflow_post(*old(interpreter), *final(interpreter)),
        old(interpreter).gas_remaining >= VERYLOW && old(interpreter).stack@.len() >= 2
            ==> spec_binop_post(
            *old(interpreter),
            *final(interpreter),
            spec_bool_word(
                spec_op1(*old(interpreter)).as_int() < spec_op2(*old(interpreter)).as_int(),
            ),
        ),
{
    let op1 = match pop_top_binop(interpreter) {
        Some(op1) => op1,
        None => {
            return ;
        },
    };
    let n = interpreter.stack.len();
    let op2 = interpreter.stack[n - 1];
    let v = if word_below_signed(&op1, &op2) {
        U256::one()
    } else {
        U256::zero()
    };
    write_top(interpreter, v);
}

/// Signed greater-than, over the words' two's-complement values.
pub fn sgt(interpreter: &mut Interpreter)
    ensures
        old(interpreter).gas_remaining < VERYLOW ==> spec_oog_post(
            *old(interpreter),
            *final(interpreter),
        ),
        old(interpreter).gas_remaining >= VERYLOW && old(interpreter).stack@.len() < 2
            ==> spec_underflow_post(*old(interpreter), *final(interpreter)),
        old(interpreter).gas_remaining >= VERYLOW && old(interpreter).stack@.len() >= 2
            ==> spec_binop_post(
            *old(interpreter),
            *final(interpreter),
            spec_bool_word(
                spec_op1(*old(interpreter)).as_int() > spec_op2(*old(interpreter)).as_int(),
            ),
        ),
{
    let op1 = match pop_top_binop(interpreter) {
        Some(op1) => op1,
        None => {
            return ;
        },
    };
    let n = interpreter.stack.len();
    let op2 = interpreter.stack[n - 1];
    let v = if word_below_signed(&op2, &op1) {
        U256::one()
    } else {
        U256::zero()
    };
    write_top(interpreter, v);
}

/// Equality of the two top words.
pub fn eq(interpreter: &mut Interpreter)
    ensures
        old(interpreter).gas_remaining < VERYLOW ==> spec_oog_post(
            *old(interpreter),
            *final(interpreter),
        ),
        old(interpreter).gas_remaining >= VERYLOW && old(interpreter).stack@.len() < 2
            ==> spec_underflow_post(*old(interpreter), *final(interpreter)),
        old(interpreter).gas_remaining >= VERYLOW && old(interpreter).stack@.len() >= 2
            ==> spec_binop_post(
            *old(interpreter),
            *final(interpreter),
            spec_bool_word(
                spec_op1(*old(interpreter)).as_nat() == spec_op2(*old(interpreter)).as_nat(),
            ),
        ),
{
    let op1 = match pop_top_binop(interpreter) {
        Some(op1) => op1,
        None => {
            return ;
        },
    };
    let n = interpreter.stack.len();
    let op2 = interpreter.stack[n - 1];
    let v = if word_equals(&op1, &op2) {
        U256::one()
    } else {
        U256::zero()
    };
    write_top(interpreter, v);
}

/// Charges `VERYLOW` gas for a one-operand instruction; reports whether
/// the instruction may go on.
fn charge_unop(interpreter: &mut Interpreter) -> (ok: bool)
    ensures
        old(interpreter).gas_remaining < VERYLOW ==> !ok && spec_oog_post(
            *old(interpreter),
            *final(interpreter),
        ),
        old(interpreter).gas_remaining >= VERYLOW && old(interpreter).stack@.len() < 1 ==> !ok
            && spec_underflow_post(*old(interpreter), *final(interpreter)),
        old(interpreter).gas_remaining >= VERYLOW && old(interpreter).stack@.len() >= 1 ==> {
            &&& ok
            &&& final(interpreter).stack@ == old(interpreter).stack@
            &&& final(interpreter).gas_remaining == old(interpreter).gas_remaining - VERYLOW
            &&& final(interpreter).instruction_result == old(interpreter).instruction_result
            &&& final(interpreter).constantinople == old(interpreter).constantinople
        },
{
    if interpreter.gas_remaining < VERYLOW {
        interpreter.instruction_result = InstructionResult::OutOfGas;
        return false;
    }
    interpreter.gas_remaining = interpreter.gas_remaining - VERYLOW;
    if interpreter.stack.len() < 1 {
        interpreter.instruction_result = InstructionResult::StackUnderflow;
        return false;
    }
    true
}

/// Is-zero test on the top word.
pub fn iszero(interpreter: &mut Interpreter)
    ensures
        old(interpreter).gas_remaining < VERYLOW ==> spec_oog_post(
            *old(interpreter),
            *final(interpreter),
        ),
        old(interpreter).gas_remaining >= VERYLOW && old(interpreter).stack@.len() < 1
            ==> spec_underflow_post(*old(interpreter), *final(interpreter)),
        old(interpreter).gas_remaining >= VERYLOW && old(interpreter).stack@.len() >= 1
            ==> spec_unop_post(
            *old(interpreter),
            *final(interpreter),
            spec_bool_word(spec_op1(*old(interpreter)).as_nat() == 0),
        ),
{
    if !charge_unop(interpreter) {
        return ;
    }
    let n = interpreter.stack.len();
    let op1 = interpreter.stack[n - 1];
    let zero = U256::zero();
    let v = if word_equals(&op1, &zero) {
        U256::one()
    } else {
        U256::zero()
    };
    write_top(interpreter, v);
}

/// Bitwise AND of the two top words, limb by limb.
pub fn bitand(interpreter: &mut Interpreter)
    ensures
        old(interpreter).gas_remaining < VERYLOW ==> spec_oog_post(
            *old(interpreter),
            *final(interpreter),
        ),
        old(interpreter).gas_remaining >= VERYLOW && old(interpreter).stack@.len() < 2
            ==> spec_underflow_post(*old(interpreter), *final(interpreter)),
        old(interpreter).gas_remaining >= VERYLOW && old(interpreter).stack@.len() >= 2
            ==> spec_binop_post(
            *old(interpreter),
            *final(interpreter),
            (U256 {
                limb0: spec_op1(*old(interpreter)).limb0 & spec_op2(*old(interpreter)).limb0,
                limb1: spec_op1(*old(interpreter)).limb1 & spec_op2(*old(interpreter)).limb1,
                limb2: spec_op1(*old(interpreter)).limb2 & spec_op2(*old(interpreter)).limb2,
                limb3: spec_op1(*old(interpreter)).limb3 & spec_op2(*old(interpreter)).limb3,
            }),
        ),
{
    let op1 = match pop_top_binop(interpreter) {
        Some(op1) => op1,
        None => {
            return ;
        },
    };
    let n = interpreter.stack.len();
    let op2 = interpreter.stack[n - 1];
    let v = U256 {
        limb0: op1.limb0 & op2.limb0,
        limb1: op1.limb1 & op2.limb1,
        limb2: op1.limb2 & op2.limb2,
        limb3: op1.limb3 & op2.limb3,
    };
    write_top(interpreter, v);
}

/// Bitwise OR of the two top words, limb by limb.
pub fn bitor(interpreter: &mut Interpreter)
    ensures
        old(interpreter).gas_remaining < VERYLOW ==> spec_oog_post(
            *old(interpreter),
            *final(interpreter),
        ),
        old(interpreter).gas_remaining >= VERYLOW && old(interpreter).stack@.len() < 2
            ==> spec_underflow_post(*old(interpreter), *final(interpreter)),
        old(interpreter).gas_remaining >= VERYLOW && old(interpreter).stack@.len() >= 2
            ==> spec_binop_post(
            *old(interpreter),
            *final(interpreter),
            (U256 {
                limb0: spec_op1(*old(interpreter)).limb0 | spec_op2(*old(interpreter)).limb0,
                limb1: spec_op1(*old(interpreter)).limb1 | spec_op2(*old(interpreter)).limb1,
                limb2: spec_op1(*old(interpreter)).limb2 | spec_op2(*old(interpreter)).limb2,
                limb3: spec_op1(*old(interpreter)).limb3 | spec_op2(*old(interpreter)).limb3,
            }),
        ),
{
    let op1 = match pop_top_binop(interpreter) {
        Some(op1) => op1,
        None => {
            return ;
        },
    };
    let n = interpreter.stack.len();
    let op2 = interpreter.stack[n - 1];
    let v = U256 {
        limb0: op1.limb0 | op2.limb0,
        limb1: op1.limb1 | op2.limb1,
        limb2: op1.limb2 | op2.limb2,
        limb3: op1.limb3 | op2.limb3,
    };
    write_top(interpreter, v);
}

/// Bitwise XOR of the two top words, limb by limb.
pub fn bitxor(interpreter: &mut Interpreter)
    ensures
        old(interpreter).gas_remaining < VERYLOW ==> spec_oog_post(
            *old(interpreter),
            *final(interpreter),
        ),
        old(interpreter).gas_remaining >= VERYLOW && old(interpreter).stack@.len() < 2
            ==> spec_underflow_post(*old(interpreter), *final(interpreter)),
        old(interpreter).gas_remaining >= VERYLOW && old(interpreter).stack@.len() >= 2
            ==> spec_binop_post(
            *old(interpreter),
            *final(interpreter),
            (U256 {
                limb0: spec_op1(*old(interpreter)).limb0 ^ spec_op2(*old(interpreter)).limb0,
                limb1: spec_op1(*old(interpreter)).limb1 ^ spec_op2(*old(interpreter)).limb1,
                limb2: spec_op1(*old(interpreter)).limb2 ^ spec_op2(*old(interpreter)).limb2,
                limb3: spec_op1(*old(interpreter)).limb3 ^ spec_op2(*old(interpreter)).limb3,
            }),
        ),
{
    let op1 = match pop_top_binop(interpreter) {
        Some(op1) => op1,
        None => {
            return ;
        },
    };
    let n = interpreter.stack.len();
    let op2 = interpreter.stack[n - 1];
    let v = U256 {
        limb0: op1.limb0 ^ op2.limb0,
        limb1: op1.limb1 ^ op2.limb1,
        limb2: op1.limb2 ^ op2.limb2,
        limb3: op1.limb3 ^ op2.limb3,
    };
    write_top(interpreter, v);
}

/// Bitwise complement of the top word.
pub fn not(interpreter: &mut Interpreter)
    ensures
        old(interpreter).gas_remaining < VERYLOW ==> spec_oog_post(
            *old(interpreter),
            *final(interpreter),
        ),
        old(interpreter).gas_remaining >= VERYLOW && old(interpreter).stack@.len() < 1
            ==> spec_underflow_post(*old(interpreter), *final(interpreter)),
        old(interpreter).gas_remaining >= VERYLOW && old(interpreter).stack@.len() >= 1
            ==> spec_unop_post(
            *old(interpreter),
            *final(interpreter),
            (U256 {
                limb0: !spec_op1(*old(interpreter)).limb0,
                limb1: !spec_op1(*old(interpreter)).limb1,
                limb2: !spec_op1(*old(interpreter)).limb2,
                limb3: !spec_op1(*old(interpreter)).limb3,
            }),
        ),
{
    if !charge_unop(interpreter) {
        return ;
    }
    let n = interpreter.stack.len();
    let op1 = interpreter.stack[n - 1];
    let v = U256 { limb0: !op1.limb0, limb1: !op1.limb1, limb2: !op1.limb2, limb3: !op1.limb3 };
    write_top(interpreter, v);
}

/// The byte the instruction extracts: the `i`-th most significant byte of
/// `word` for `i` below 32, and zero beyond.
pub open spec fn spec_byte_value(index: U256, word: U256) -> U256 {
    if index.as_nat() < 32 {
        U256 {
            limb0: word.spec_to_le_bytes()[31 - index.as_nat()] as u64,
            limb1: 0,
            limb2: 0,
            limb3: 0,
        }
    } else {
        U256 { limb0: 0, limb1: 0, limb2: 0, limb3: 0 }
    }
}

/// Arithmetic reading of the extracted byte: for an in-range index, the
/// result is the index-th most significant base-256 digit of the word's
/// value.
pub proof fn lemma_byte_value_arith(index: U256, word: U256)
    requires
        index.as_nat() < 32,
    ensures
        spec_byte_value(index, word).as_nat() == (word.as_nat()
            / vstd::arithmetic::power2::pow2((8 * (31 - index.as_nat())) as nat) as nat) % 256,
{
    crate::u256::lemma_to_le_bytes_value(word);
    vstd::bytes::lemma_auto_spec_u64_to_from_le_bytes();
    assert(word.spec_to_le_bytes().len() == 32);
    crate::u256::lemma_le_bytes_value_byte(word.spec_to_le_bytes(), 31 - index.as_nat());
}

/// Byte extraction: the new top holds the popped index's byte of the word
/// beneath, counted from the most significant end.
pub fn byte(interpreter: &mut Interpreter)
    ensures
        old(interpreter).gas_remaining < VERYLOW ==> spec_oog_post(
            *old(interpreter),
            *final(interpreter),
        ),
        old(interpreter).gas_remaining >= VERYLOW && old(interpreter).stack@.len() < 2
            ==> spec_underflow_post(*old(interpreter), *final(interpreter)),
        old(interpreter).gas_remaining >= VERYLOW && old(interpreter).stack@.len() >= 2
            ==> spec_binop_post(
            *old(interpreter),
            *final(interpreter),
            spec_byte_value(spec_op1(*old(interpreter)), spec_op2(*old(interpreter))),
        ),
{
    let op1 = match pop_top_binop(interpreter) {
        Some(op1) => op1,
        None => {
            return ;
        },
    };
    let n = interpreter.stack.len();
    let op2 = interpreter.stack[n - 1];
    let in_range = op1.limb1 == 0 && op1.limb2 == 0 && op1.limb3 == 0 && op1.limb0 < 32;
    let v = if in_range {
        let le = op2.to_le_bytes();
        let byte_idx: usize = 31 - (op1.limb0 as usize);
        U256::from_u64(le[byte_idx] as u64)
    } else {
        U256::zero()
    };
    proof {
        U256::lemma_as_nat_injective(v, spec_byte_value(op1, op2));
    }
    write_top(interpreter, v);
}

/// Left shift (the fork-gated instruction): the word beneath the top is
/// shifted left by the popped amount, overflow dropped; a shift of 256 or
/// more clears it.
pub fn shl(interpreter: &mut Interpreter)
    ensures
        !old(interpreter).constantinople ==> spec_not_activated_post(
            *old(interpreter),
            *final(interpreter),
        ),
        old(interpreter).constantinople && old(interpreter).gas_remaining < VERYLOW
            ==> spec_oog_post(*old(interpreter), *final(interpreter)),
        old(interpreter).constantinople && old(interpreter).gas_remaining >= VERYLOW && old(interpreter).stack@.len() < 2 ==> spec_underflow_post(*old(interpreter), *final(interpreter)),
        old(interpreter).constantinople && old(interpreter).gas_remaining >= VERYLOW && old(interpreter).stack@.len() >= 2 ==> {
            &&& spec_binop_post(
                *old(interpreter),
                *final(interpreter),
                final(interpreter).stack@.last(),
            )
            &&& spec_op1(*old(interpreter)).as_nat() >= 256 ==> final(interpreter).stack@.last().as_nat() == 0
            &&& spec_op1(*old(interpreter)).as_nat() < 256 ==> final(interpreter).stack@.last().as_nat() == (spec_op2(*old(interpreter)).as_nat()
                * vstd::arithmetic::power2::pow2(spec_op1(*old(interpreter)).as_nat()))
                % crate::u256::word_base()
        },
{
    if !interpreter.constantinople {
        interpreter.instruction_result = InstructionResult::NotActivated;
        return ;
    }
    let op1 = match pop_top_binop(interpreter) {
        Some(op1) => op1,
        None => {
            return ;
        },
    };
    let n = interpreter.stack.len();
    let op2 = interpreter.stack[n - 1];
    let shift_capped = op1.limb1 != 0 || op1.limb2 != 0 || op1.limb3 != 0 || op1.limb0 >= 256;
    let v = if shift_capped {
        U256::zero()
    } else {
        u256_shl(op2, op1.limb0 as usize)
    };
    write_top(interpreter, v);
}

/// Logical right shift (fork-gated): the word beneath the top is shifted
/// right by the popped amount; a shift of 256 or more clears it.
pub fn shr(interpreter: &mut Interpreter)
    ensures
        !old(interpreter).constantinople ==> spec_not_activated_post(
            *old(interpreter),
            *final(interpreter),
        ),
        old(interpreter).constantinople && old(interpreter).gas_remaining < VERYLOW
            ==> spec_oog_post(*old(interpreter), *final(interpreter)),
        old(interpreter).constantinople && old(interpreter).gas_remaining >= VERYLOW && old(interpreter).stack@.len() < 2 ==> spec_underflow_post(*old(interpreter), *final(interpreter)),
        old(interpreter).constantinople && old(interpreter).gas_remaining >= VERYLOW && old(interpreter).stack@.len() >= 2 ==> {
            &&& spec_binop_post(
                *old(interpreter),
                *final(interpreter),
                final(interpreter).stack@.last(),
            )
            &&& spec_op1(*old(interpreter)).as_nat() >= 256 ==> final(interpreter).stack@.last().as_nat() == 0
            &&& spec_op1(*old(interpreter)).as_nat() < 256 ==> final(interpreter).stack@.last().as_nat() == spec_op2(*old(interpreter)).as_nat()
                / vstd::arithmetic::power2::pow2(spec_op1(*old(interpreter)).as_nat())
        },
{
    if !interpreter.constantinople {
        interpreter.instruction_result = InstructionResult::NotActivated;
        return ;
    }
    let op1 = match pop_top_binop(interpreter) {
        Some(op1) => op1,
        None => {
            return ;
        },
    };
    let n = interpreter.stack.len();
    let op2 = interpreter.stack[n - 1];
    let shift_capped = op1.limb1 != 0 || op1.limb2 != 0 || op1.limb3 != 0 || op1.limb0 >= 256;
    let v = if shift_capped {
        U256::zero()
    } else {
        u256_shr(op2, op1.limb0 as usize)
    };
    write_top(interpreter, v);
}

/// Arithmetic right shift (fork-gated): the word beneath the top is
/// shifted right by the popped amount with its sign kept; a shift of 256
/// or more leaves all-zeros or all-ones by sign.
pub fn sar(interpreter: &mut Interpreter)
    ensures
        !old(interpreter).constantinople ==> spec_not_activated_post(
            *old(interpreter),
            *final(interpreter),
        ),
        old(interpreter).constantinople && old(interpreter).gas_remaining < VERYLOW
            ==> spec_oog_post(*old(interpreter), *final(interpreter)),
        old(interpreter).constantinople && old(interpreter).gas_remaining >= VERYLOW && old(interpreter).stack@.len() < 2 ==> spec_underflow_post(*old(interpreter), *final(interpreter)),
        old(interpreter).constantinople && old(interpreter).gas_remaining >= VERYLOW && old(interpreter).stack@.len() >= 2 ==> {
            &&& spec_binop_post(
                *old(interpreter),
                *final(interpreter),
                final(interpreter).stack@.last(),
            )
            &&& spec_op1(*old(interpreter)).as_nat() >= 256 ==> final(interpreter).stack@.last().as_int() == (if spec_op2(*old(interpreter)).as_int() < 0 {
                -1int
            } else {
                0int
            })
            &&& spec_op1(*old(interpreter)).as_nat() < 256 ==> final(interpreter).stack@.last().as_int() == spec_op2(*old(interpreter)).as_int() / (
            vstd::arithmetic::power2::pow2(spec_op1(*old(interpreter)).as_nat()) as int)
        },
{
    if !interpreter.constantinople {
        interpreter.instruction_result = InstructionResult::NotActivated;
        return ;
    }
    let op1 = match pop_top_binop(interpreter) {
        Some(op1) => op1,
        None => {
            return ;
        },
    };
    let n = interpreter.stack.len();
    let op2 = interpreter.stack[n - 1];
    let shift_capped = op1.limb1 != 0 || op1.limb2 != 0 || op1.limb3 != 0 || op1.limb0 >= 256;
    let v = if shift_capped {
        if op2.limb3 >= 0x8000_0000_0000_0000 {
            U256 { limb0: u64::MAX, limb1: u64::MAX, limb2: u64::MAX, limb3: u64::MAX }
        } else {
            U256::zero()
        }
    } else {
        u256_sar(op2, op1.limb0 as usize)
    };
    write_top(interpreter, v);
}

} // verus!
