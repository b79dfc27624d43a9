use ityfuzz::instructions::{
    bitand, bitor, bitxor, byte, eq, gt, iszero, lt, not, sar, sgt, shl, shr, slt,
    InstructionResult, Interpreter,
};
use ityfuzz::u256::U256;

fn word(x: u64) -> U256 {
    U256 { limb0: x, limb1: 0, limb2: 0, limb3: 0 }
}

fn neg_one() -> U256 {
    U256 { limb0: u64::MAX, limb1: u64::MAX, limb2: u64::MAX, limb3: u64::MAX }
}

/// Stack with `op1` on top of `op2`.
fn machine(op1: U256, op2: U256) -> Interpreter {
    Interpreter {
        stack: vec![op2, op1],
        gas_remaining: 100,
        instruction_result: InstructionResult::Continue,
        constantinople: true,
    }
}

#[test]
fn lt_pops_and_writes_flag() {
    let mut m = machine(word(3), word(5));
    lt(&mut m);
    assert_eq!(m.stack, vec![word(1)]);
    assert_eq!(m.gas_remaining, 97);
    assert_eq!(m.instruction_result, InstructionResult::Continue);

    let mut m = machine(word(5), word(3));
    lt(&mut m);
    assert_eq!(m.stack, vec![word(0)]);
}

#[test]
fn gt_compares_top_against_second() {
    let mut m = machine(word(5), word(3));
    gt(&mut m);
    assert_eq!(m.stack, vec![word(1)]);
}

#[test]
fn signed_comparisons_use_twos_complement() {
    // -1 < 1 signed, though its unsigned value is the largest word
    let mut m = machine(neg_one(), word(1));
    slt(&mut m);
    assert_eq!(m.stack, vec![word(1)]);

    let mut m = machine(neg_one(), word(1));
    lt(&mut m);
    assert_eq!(m.stack, vec![word(0)]);

    let mut m = machine(word(1), neg_one());
    sgt(&mut m);
    assert_eq!(m.stack, vec![word(1)]);
}

#[test]
fn eq_and_iszero() {
    let mut m = machine(word(7), word(7));
    eq(&mut m);
    assert_eq!(m.stack, vec![word(1)]);

    let mut m = Interpreter {
        stack: vec![word(0)],
        gas_remaining: 10,
        instruction_result: InstructionResult::Continue,
        constantinople: true,
    };
    iszero(&mut m);
    assert_eq!(m.stack, vec![word(1)]);
    assert_eq!(m.gas_remaining, 7);
}

#[test]
fn bitwise_ops_work_limbwise() {
    let a = U256 { limb0: 0b1100, limb1: 1, limb2: 0, limb3: 0 };
    let b = U256 { limb0: 0b1010, limb1: 3, limb2: 0, limb3: 0 };
    let mut m = machine(a, b);
    bitand(&mut m);
    assert_eq!(m.stack, vec![U256 { limb0: 0b1000, limb1: 1, limb2: 0, limb3: 0 }]);

    let mut m = machine(a, b);
    bitor(&mut m);
    assert_eq!(m.stack, vec![U256 { limb0: 0b1110, limb1: 3, limb2: 0, limb3: 0 }]);

    let mut m = machine(a, b);
    bitxor(&mut m);
    assert_eq!(m.stack, vec![U256 { limb0: 0b0110, limb1: 2, limb2: 0, limb3: 0 }]);
}

#[test]
fn not_complements_every_limb() {
    let mut m = Interpreter {
        stack: vec![word(0)],
        gas_remaining: 10,
        instruction_result: InstructionResult::Continue,
        constantinople: true,
    };
    not(&mut m);
    assert_eq!(m.stack, vec![neg_one()]);
}

#[test]
fn byte_extracts_most_significant_first() {
    // byte 31 is the least significant one
    let mut m = machine(word(31), word(0xab));
    byte(&mut m);
    assert_eq!(m.stack, vec![word(0xab)]);

    // byte 0 of a small word is zero
    let mut m = machine(word(0), word(0xab));
    byte(&mut m);
    assert_eq!(m.stack, vec![word(0)]);

    // byte 30 is the second least significant one
    let mut m = machine(word(30), word(0xab12));
    byte(&mut m);
    assert_eq!(m.stack, vec![word(0xab)]);

    // out-of-range index clears the word
    let mut m = machine(word(32), word(0xab));
    byte(&mut m);
    assert_eq!(m.stack, vec![word(0)]);
}

#[test]
fn shifts_move_bits_and_cap_at_word_size() {
    let mut m = machine(word(4), word(1));
    shl(&mut m);
    assert_eq!(m.stack, vec![word(16)]);

    let mut m = machine(word(68), word(1));
    shl(&mut m);
    assert_eq!(m.stack, vec![U256 { limb0: 0, limb1: 16, limb2: 0, limb3: 0 }]);

    let mut m = machine(word(256), word(1));
    shl(&mut m);
    assert_eq!(m.stack, vec![word(0)]);

    let mut m = machine(word(4), word(16));
    shr(&mut m);
    assert_eq!(m.stack, vec![word(1)]);

    let mut m = machine(word(300), neg_one());
    shr(&mut m);
    assert_eq!(m.stack, vec![word(0)]);
}

#[test]
fn sar_keeps_the_sign() {
    // -8 >> 2 == -2
    let minus_eight = U256 {
        limb0: u64::MAX - 7,
        limb1: u64::MAX,
        limb2: u64::MAX,
        limb3: u64::MAX,
    };
    let minus_two = U256 {
        limb0: u64::MAX - 1,
        limb1: u64::MAX,
        limb2: u64::MAX,
        limb3: u64::MAX,
    };
    let mut m = machine(word(2), minus_eight);
    sar(&mut m);
    assert_eq!(m.stack, vec![minus_two]);

    // a huge shift of a negative word leaves all ones
    let mut m = machine(word(400), neg_one());
    sar(&mut m);
    assert_eq!(m.stack, vec![neg_one()]);

    // and of a positive word, zero
    let mut m = machine(word(400), word(12345));
    sar(&mut m);
    assert_eq!(m.stack, vec![word(0)]);

    // positive words shift like shr
    let mut m = machine(word(3), word(64));
    sar(&mut m);
    assert_eq!(m.stack, vec![word(8)]);
}

#[test]
fn gas_and_stack_failures_halt() {
    let mut m = Interpreter {
        stack: vec![word(1), word(2)],
        gas_remaining: 2,
        instruction_result: InstructionResult::Continue,
        constantinople: true,
    };
    lt(&mut m);
    assert_eq!(m.instruction_result, InstructionResult::OutOfGas);
    assert_eq!(m.gas_remaining, 2);
    assert_eq!(m.stack.len(), 2);

    let mut m = Interpreter {
        stack: vec![word(1)],
        gas_remaining: 10,
        instruction_result: InstructionResult::Continue,
        constantinople: true,
    };
    lt(&mut m);
    assert_eq!(m.instruction_result, InstructionResult::StackUnderflow);
    assert_eq!(m.gas_remaining, 7);
    assert_eq!(m.stack.len(), 1);
}

#[test]
fn shift_instructions_are_fork_gated() {
    let mut m = Interpreter {
        stack: vec![word(1), word(1)],
        gas_remaining: 10,
        instruction_result: InstructionResult::Continue,
        constantinople: false,
    };
    shl(&mut m);
    assert_eq!(m.instruction_result, InstructionResult::NotActivated);
    assert_eq!(m.gas_remaining, 10);
    assert_eq!(m.stack.len(), 2);
}
