//! Disassembly of hex-encoded contract bytecode into an assembly
//! listing: the text is read two characters at a time, each pair decoded
//! through the opcode table, and push instructions carry their immediate
//! data inline.

use vstd::prelude::*;
use vstd::string::StrSliceExecFns;
use vstd::string::StringExecFns;

verus! {

/// The character of one decimal digit.
pub open spec fn spec_digit_char(d: nat) -> char {
    if d == 0 { '0' }
    else if d == 1 { '1' }
    else if d == 2 { '2' }
    else if d == 3 { '3' }
    else if d == 4 { '4' }
    else if d == 5 { '5' }
    else if d == 6 { '6' }
    else if d == 7 { '7' }
    else if d == 8 { '8' }
    else { '9' }
}

/// The decimal digits of `n`, most significant first.
pub open spec fn spec_dec_digits(n: nat) -> Seq<char>
    decreases n,
{
    if n < 10 {
        seq![spec_digit_char(n)]
    } else {
        spec_dec_digits(n / 10).push(spec_digit_char(n % 10))
    }
}

/// The digits' characters read from the last digit gathered to the first.
pub open spec fn spec_rev_digit_chars(ds: Seq<u8>) -> Seq<char>
    decreases ds.len(),
{
    if ds.len() == 0 {
        Seq::empty()
    } else {
        seq![spec_digit_char(ds.last() as nat)] + spec_rev_digit_chars(ds.drop_last())
    }
}

/// Index form of `spec_rev_digit_chars`.
proof fn lemma_rev_digit_chars_index(ds: Seq<u8>, k: int)
    requires
        0 <= k < ds.len(),
    ensures
        spec_rev_digit_chars(ds).len() == ds.len(),
        spec_rev_digit_chars(ds)[k] == spec_digit_char(ds[ds.len() - 1 - k] as nat),
    decreases ds.len(),
{
    lemma_rev_digit_chars_len(ds);
    if k > 0 {
        lemma_rev_digit_chars_index(ds.drop_last(), k - 1);
    }
}

/// Length of `spec_rev_digit_chars`.
proof fn lemma_rev_digit_chars_len(ds: Seq<u8>)
    ensures
        spec_rev_digit_chars(ds).len() == ds.len(),
    decreases ds.len(),
{
    if ds.len() > 0 {
        lemma_rev_digit_chars_len(ds.drop_last());
    }
}

/// The one-character string of a decimal digit.
fn digit_str(d: u8) -> (r: &'static str)
    requires
        d < 10,
    ensures
        r@ == seq![spec_digit_char(d as nat)],
{
    if d == 0 {
        proof { reveal_strlit("0"); assert("0"@ =~= seq![spec_digit_char(0)]); }
        "0"
    } else if d == 1 {
        proof { reveal_strlit("1"); assert("1"@ =~= seq![spec_digit_char(1)]); }
        "1"
    } else if d == 2 {
        proof { reveal_strlit("2"); assert("2"@ =~= seq![spec_digit_char(2)]); }
        "2"
    } else if d == 3 {
        proof { reveal_strlit("3"); assert("3"@ =~= seq![spec_digit_char(3)]); }
        "3"
    } else if d == 4 {
        proof { reveal_strlit("4"); assert("4"@ =~= seq![spec_digit_char(4)]); }
        "4"
    } else if d == 5 {
        proof { reveal_strlit("5"); assert("5"@ =~= seq![spec_digit_char(5)]); }
        "5"
    } else if d == 6 {
        proof { reveal_strlit("6"); assert("6"@ =~= seq![spec_digit_char(6)]); }
        "6"
    } else if d == 7 {
        proof { reveal_strlit("7"); assert("7"@ =~= seq![spec_digit_char(7)]); }
        "7"
    } else if d == 8 {
        proof { reveal_strlit("8"); assert("8"@ =~= seq![spec_digit_char(8)]); }
        "8"
    } else {
        proof { reveal_strlit("9"); assert("9"@ =~= seq![spec_digit_char(9)]); }
        "9"
    }
}

/// Writes `n` in decimal.
pub fn usize_to_string(n: usize) -> (r: String)
    ensures
        r@ == spec_dec_digits(n as nat),
{
    let mut digits: Vec<u8> = Vec::new();
    let mut m: usize = n;
    proof {
        assert(spec_dec_digits(n as nat) =~= spec_dec_digits(n as nat)
            + spec_rev_digit_chars(digits@));
    }
    while m >= 10
        invariant
            spec_dec_digits(n as nat) == spec_dec_digits(m as nat)
                + spec_rev_digit_chars(digits@),
            forall|k: int| 0 <= k < digits@.len() ==> digits@[k] < 10,
        decreases m,
    {
        let d = (m % 10) as u8;
        proof {
            assert(digits@.push(d).drop_last() =~= digits@);
            assert(spec_rev_digit_chars(digits@.push(d)) == seq![spec_digit_char(d as nat)]
                + spec_rev_digit_chars(digits@));
            assert(spec_dec_digits(m as nat) == spec_dec_digits((m as nat) / 10).push(
                spec_digit_char((m as nat) % 10)));
            assert(spec_dec_digits((m as nat) / 10).push(spec_digit_char((m as nat) % 10))
                + spec_rev_digit_chars(digits@) =~= spec_dec_digits((m as nat) / 10) + (seq![
                spec_digit_char(d as nat)] + spec_rev_digit_chars(digits@)));
        }
        digits.push(d);
        m = m / 10;
    }
    let d_last = m as u8;
    proof {
        assert(digits@.push(d_last).drop_last() =~= digits@);
        assert(spec_rev_digit_chars(digits@.push(d_last)) == seq![spec_digit_char(
            d_last as nat)] + spec_rev_digit_chars(digits@));
        assert(spec_dec_digits(m as nat) =~= seq![spec_digit_char(m as nat)]);
        assert(spec_dec_digits(m as nat) + spec_rev_digit_chars(digits@) =~= seq![
            spec_digit_char(d_last as nat)] + spec_rev_digit_chars(digits@));
    }
    digits.push(d_last);
    let ghost all = digits@;
    let mut out = String::new();
    let mut i: usize = digits.len();
    while i > 0
        invariant
            digits@ == all,
            i <= digits@.len(),
            out@.len() == digits@.len() - i,
            forall|k: int|
                0 <= k < out@.len() ==> out@[k] == spec_digit_char(
                    digits@[digits@.len() - 1 - k] as nat),
            forall|k: int| 0 <= k < digits@.len() ==> digits@[k] < 10,
        decreases i,
    {
        i -= 1;
        out.append(digit_str(digits[i]));
    }
    proof {
        lemma_rev_digit_chars_len(digits@);
        assert forall|k: int| 0 <= k < out@.len() implies out@[k] == spec_rev_digit_chars(
            digits@,
        )[k] by {
            lemma_rev_digit_chars_index(digits@, k);
        }
        assert(out@ =~= spec_rev_digit_chars(digits@));
    }
    out
}

/// The value of one hexadecimal digit character, lower or upper case.
pub open spec fn spec_hex_digit(c: char) -> Option<u8> {
    if 0x30 <= c as u32 && c as u32 <= 0x39 {
        Some((c as u32 - 0x30) as u8)
    } else if 0x61 <= c as u32 && c as u32 <= 0x66 {
        Some((c as u32 - 0x57) as u8)
    } else if 0x41 <= c as u32 && c as u32 <= 0x46 {
        Some((c as u32 - 0x37) as u8)
    } else {
        None
    }
}

/// Reads one hexadecimal digit.
fn hex_digit(c: char) -> (r: Option<u8>)
    ensures
        r == spec_hex_digit(c),
{
    let u = c as u32;
    if 0x30 <= u && u <= 0x39 {
        Some((u - 0x30) as u8)
    } else if 0x61 <= u && u <= 0x66 {
        Some((u - 0x57) as u8)
    } else if 0x41 <= u && u <= 0x46 {
        Some((u - 0x37) as u8)
    } else {
        None
    }
}

/// The byte two hexadecimal characters encode.
pub open spec fn spec_pair_byte(c1: char, c2: char) -> Option<u8> {
    match (spec_hex_digit(c1), spec_hex_digit(c2)) {
        (Some(h), Some(l)) => Some((16 * h + l) as u8),
        _ => None,
    }
}

/// Reads the byte of one two-character chunk.
fn pair_byte(c1: char, c2: char) -> (r: Option<u8>)
    ensures
        r == spec_pair_byte(c1, c2),
{
    match (hex_digit(c1), hex_digit(c2)) {
        (Some(h), Some(l)) => Some(16 * h + l),
        _ => None,
    }
}

/// Immediate bytes a push instruction carries; zero for every other
/// opcode.
pub open spec fn spec_push_size(b: u8) -> nat {
    if 0x60 <= b && b <= 0x7f {
        (b - 0x5f) as nat
    } else {
        0
    }
}

/// Reads a push instruction's immediate size.
fn push_size(b: u8) -> (r: u8)
    ensures
        r as nat == spec_push_size(b),
{
    if 0x60 <= b && b <= 0x7f {
        b - 0x5f
    } else {
        0
    }
}

/// Mnemonic of each opcode; bytes without one read `unknown`.
#[verifier::opaque]
pub open spec fn spec_opcode_name(b: u8) -> Seq<char> {
    if b == 0x00 {
        "STOP"@
    } else     if b == 0x01 {
        "ADD"@
    } else     if b == 0x02 {
        "MUL"@
    } else     if b == 0x03 {
        "SUB"@
    } else     if b == 0x04 {
        "DIV"@
    } else     if b == 0x05 {
        "SDIV"@
    } else     if b == 0x06 {
        "MOD"@
    } else     if b == 0x07 {
        "SMOD"@
    } else     if b == 0x08 {
        "ADDMOD"@
    } else     if b == 0x09 {
        "MULMOD"@
    } else     if b == 0x0a {
        "EXP"@
    } else     if b == 0x0b {
        "SIGNEXTEND"@
    } else     if b == 0x10 {
        "LT"@
    } else     if b == 0x11 {
        "GT"@
    } else     if b == 0x12 {
        "SLT"@
    } else     if b == 0x13 {
        "SGT"@
    } else     if b == 0x14 {
        "EQ"@
    } else     if b == 0x15 {
        "ISZERO"@
    } else     if b == 0x16 {
        "AND"@
    } else     if b == 0x17 {
        "OR"@
    } else     if b == 0x18 {
        "XOR"@
    } else     if b == 0x19 {
        "NOT"@
    } else     if b == 0x1a {
        "BYTE"@
    } else     if b == 0x1b {
        "SHL"@
    } else     if b == 0x1c {
        "SHR"@
    } else     if b == 0x1d {
        "SAR"@
    } else     if b == 0x20 {
        "SHA3"@
    } else     if b == 0x30 {
        "ADDRESS"@
    } else     if b == 0x31 {
        "BALANCE"@
    } else     if b == 0x32 {
        "ORIGIN"@
    } else     if b == 0x33 {
        "CALLER"@
    } else     if b == 0x34 {
        "CALLVALUE"@
    } else     if b == 0x35 {
        "CALLDATALOAD"@
    } else     if b == 0x36 {
        "CALLDATASIZE"@
    } else     if b == 0x37 {
        "CALLDATACOPY"@
    } else     if b == 0x38 {
        "CODESIZE"@
    } else     if b == 0x39 {
        "CODECOPY"@
    } else     if b == 0x3a {
        "GASPRICE"@
    } else     if b == 0x3b {
        "EXTCODESIZE"@
    } else     if b == 0x3c {
        "EXTCODECOPY"@
    } else     if b == 0x3d {
        "RETURNDATASIZE"@
    } else     if b == 0x3e {
        "RETURNDATACOPY"@
    } else     if b == 0x3f {
        "EXTCODEHASH"@
    } else     if b == 0x40 {
        "BLOCKHASH"@
    } else     if b == 0x41 {
        "COINBASE"@
    } else     if b == 0x42 {
        "TIMESTAMP"@
    } else     if b == 0x43 {
        "NUMBER"@
    } else     if b == 0x44 {
        "DIFFICULTY"@
    } else     if b == 0x45 {
        "GASLIMIT"@
    } else     if b == 0x46 {
        "CHAINID"@
    } else     if b == 0x47 {
        "SELFBALANCE"@
    } else     if b == 0x48 {
        "BASEFEE"@
    } else     if b == 0x50 {
        "POP"@
    } else     if b == 0x51 {
        "MLOAD"@
    } else     if b == 0x52 {
        "MSTORE"@
    } else     if b == 0x53 {
        "MSTORE8"@
    } else     if b == 0x54 {
        "SLOAD"@
    } else     if b == 0x55 {
        "SSTORE"@
    } else     if b == 0x56 {
        "JUMP"@
    } else     if b == 0x57 {
        "JUMPI"@
    } else     if b == 0x58 {
        "PC"@
    } else     if b == 0x59 {
        "MSIZE"@
    } else     if b == 0x5a {
        "GAS"@
    } else     if b == 0x5b {
        "JUMPDEST"@
    } else     if b == 0x60 {
        "PUSH1"@
    } else     if b == 0x61 {
        "PUSH2"@
    } else     if b == 0x62 {
        "PUSH3"@
    } else     if b == 0x63 {
        "PUSH4"@
    } else     if b == 0x64 {
        "PUSH5"@
    } else     if b == 0x65 {
        "PUSH6"@
    } else     if b == 0x66 {
        "PUSH7"@
    } else     if b == 0x67 {
        "PUSH8"@
    } else     if b == 0x68 {
        "PUSH9"@
    } else     if b == 0x69 {
        "PUSH10"@
    } else     if b == 0x6a {
        "PUSH11"@
    } else     if b == 0x6b {
        "PUSH12"@
    } else     if b == 0x6c {
        "PUSH13"@
    } else     if b == 0x6d {
        "PUSH14"@
    } else     if b == 0x6e {
        "PUSH15"@
    } else     if b == 0x6f {
        "PUSH16"@
    } else     if b == 0x70 {
        "PUSH17"@
    } else     if b == 0x71 {
        "PUSH18"@
    } else     if b == 0x72 {
        "PUSH19"@
    } else     if b == 0x73 {
        "PUSH20"@
    } else     if b == 0x74 {
        "PUSH21"@
    } else     if b == 0x75 {
        "PUSH22"@
    } else     if b == 0x76 {
        "PUSH23"@
    } else     if b == 0x77 {
        "PUSH24"@
    } else     if b == 0x78 {
        "PUSH25"@
    } else     if b == 0x79 {
        "PUSH26"@
    } else     if b == 0x7a {
        "PUSH27"@
    } else     if b == 0x7b {
        "PUSH28"@
    } else     if b == 0x7c {
        "PUSH29"@
    } else     if b == 0x7d {
        "PUSH30"@
    } else     if b == 0x7e {
        "PUSH31"@
    } else     if b == 0x7f {
        "PUSH32"@
    } else     if b == 0x80 {
        "DUP1"@
    } else     if b == 0x81 {
        "DUP2"@
    } else     if b == 0x82 {
        "DUP3"@
    } else     if b == 0x83 {
        "DUP4"@
    } else     if b == 0x84 {
        "DUP5"@
    } else     if b == 0x85 {
        "DUP6"@
    } else     if b == 0x86 {
        "DUP7"@
    } else     if b == 0x87 {
        "DUP8"@
    } else     if b == 0x88 {
        "DUP9"@
    } else     if b == 0x89 {
        "DUP10"@
    } else     if b == 0x8a {
        "DUP11"@
    } else     if b == 0x8b {
        "DUP12"@
    } else     if b == 0x8c {
        "DUP13"@
    } else     if b == 0x8d {
        "DUP14"@
    } else     if b == 0x8e {
        "DUP15"@
    } else     if b == 0x8f {
        "DUP16"@
    } else     if b == 0x90 {
        "SWAP1"@
    } else     if b == 0x91 {
        "SWAP2"@
    } else     if b == 0x92 {
        "SWAP3"@
    } else     if b == 0x93 {
        "SWAP4"@
    } else     if b == 0x94 {
        "SWAP5"@
    } else     if b == 0x95 {
        "SWAP6"@
    } else     if b == 0x96 {
        "SWAP7"@
    } else     if b == 0x97 {
        "SWAP8"@
    } else     if b == 0x98 {
        "SWAP9"@
    } else     if b == 0x99 {
        "SWAP10"@
    } else     if b == 0x9a {
        "SWAP11"@
    } else     if b == 0x9b {
        "SWAP12"@
    } else     if b == 0x9c {
        "SWAP13"@
    } else     if b == 0x9d {
        "SWAP14"@
    } else     if b == 0x9e {
        "SWAP15"@
    } else     if b == 0x9f {
        "SWAP16"@
    } else     if b == 0xa0 {
        "LOG0"@
    } else     if b == 0xa1 {
        "LOG1"@
    } else     if b == 0xa2 {
        "LOG2"@
    } else     if b == 0xa3 {
        "LOG3"@
    } else     if b == 0xa4 {
        "LOG4"@
    } else     if b == 0xf0 {
        "CREATE"@
    } else     if b == 0xf1 {
        "CALL"@
    } else     if b == 0xf2 {
        "CALLCODE"@
    } else     if b == 0xf3 {
        "RETURN"@
    } else     if b == 0xf4 {
        "DELEGATECALL"@
    } else     if b == 0xf5 {
        "CREATE2"@
    } else     if b == 0xfa {
        "STATICCALL"@
    } else     if b == 0xfd {
        "REVERT"@
    } else     if b == 0xfe {
        "INVALID"@
    } else     if b == 0xff {
        "SELFDESTRUCT"@
    } else {
        "unknown"@
    }
}

/// Looks up an opcode's mnemonic.
#[verifier::rlimit(100)]
pub fn opcode_name(b: u8) -> (r: &'static str)
    ensures
        r@ == spec_opcode_name(b),
{
    proof {
        reveal(spec_opcode_name);
    }
    if b == 0x00 {
        "STOP"
    } else     if b == 0x01 {
        "ADD"
    } else     if b == 0x02 {
        "MUL"
    } else     if b == 0x03 {
        "SUB"
    } else     if b == 0x04 {
        "DIV"
    } else     if b == 0x05 {
        "SDIV"
    } else     if b == 0x06 {
        "MOD"
    } else     if b == 0x07 {
        "SMOD"
    } else     if b == 0x08 {
        "ADDMOD"
    } else     if b == 0x09 {
        "MULMOD"
    } else     if b == 0x0a {
        "EXP"
    } else     if b == 0x0b {
        "SIGNEXTEND"
    } else     if b == 0x10 {
        "LT"
    } else     if b == 0x11 {
        "GT"
    } else     if b == 0x12 {
        "SLT"
    } else     if b == 0x13 {
        "SGT"
    } else     if b == 0x14 {
        "EQ"
    } else     if b == 0x15 {
        "ISZERO"
    } else     if b == 0x16 {
        "AND"
    } else     if b == 0x17 {
        "OR"
    } else     if b == 0x18 {
        "XOR"
    } else     if b == 0x19 {
        "NOT"
    } else     if b == 0x1a {
        "BYTE"
    } else     if b == 0x1b {
        "SHL"
    } else     if b == 0x1c {
        "SHR"
    } else     if b == 0x1d {
        "SAR"
    } else     if b == 0x20 {
        "SHA3"
    } else     if b == 0x30 {
        "ADDRESS"
    } else     if b == 0x31 {
        "BALANCE"
    } else     if b == 0x32 {
        "ORIGIN"
    } else     if b == 0x33 {
        "CALLER"
    } else     if b == 0x34 {
        "CALLVALUE"
    } else     if b == 0x35 {
        "CALLDATALOAD"
    } else     if b == 0x36 {
        "CALLDATASIZE"
    } else     if b == 0x37 {
        "CALLDATACOPY"
    } else     if b == 0x38 {
        "CODESIZE"
    } else     if b == 0x39 {
        "CODECOPY"
    } else     if b == 0x3a {
        "GASPRICE"
    } else     if b == 0x3b {
        "EXTCODESIZE"
    } else     if b == 0x3c {
        "EXTCODECOPY"
    } else     if b == 0x3d {
        "RETURNDATASIZE"
    } else     if b == 0x3e {
        "RETURNDATACOPY"
    } else     if b == 0x3f {
        "EXTCODEHASH"
    } else     if b == 0x40 {
        "BLOCKHASH"
    } else     if b == 0x41 {
        "COINBASE"
    } else     if b == 0x42 {
        "TIMESTAMP"
    } else     if b == 0x43 {
        "NUMBER"
    } else     if b == 0x44 {
        "DIFFICULTY"
    } else     if b == 0x45 {
        "GASLIMIT"
    } else     if b == 0x46 {
        "CHAINID"
    } else     if b == 0x47 {
        "SELFBALANCE"
    } else     if b == 0x48 {
        "BASEFEE"
    } else     if b == 0x50 {
        "POP"
    } else     if b == 0x51 {
        "MLOAD"
    } else     if b == 0x52 {
        "MSTORE"
    } else     if b == 0x53 {
        "MSTORE8"
    } else     if b == 0x54 {
        "SLOAD"
    } else     if b == 0x55 {
        "SSTORE"
    } else     if b == 0x56 {
        "JUMP"
    } else     if b == 0x57 {
        "JUMPI"
    } else     if b == 0x58 {
        "PC"
    } else     if b == 0x59 {
        "MSIZE"
    } else     if b == 0x5a {
        "GAS"
    } else     if b == 0x5b {
        "JUMPDEST"
    } else     if b == 0x60 {
        "PUSH1"
    } else     if b == 0x61 {
        "PUSH2"
    } else     if b == 0x62 {
        "PUSH3"
    } else     if b == 0x63 {
        "PUSH4"
    } else     if b == 0x64 {
        "PUSH5"
    } else     if b == 0x65 {
        "PUSH6"
    } else     if b == 0x66 {
        "PUSH7"
    } else     if b == 0x67 {
        "PUSH8"
    } else     if b == 0x68 {
        "PUSH9"
    } else     if b == 0x69 {
        "PUSH10"
    } else     if b == 0x6a {
        "PUSH11"
    } else     if b == 0x6b {
        "PUSH12"
    } else     if b == 0x6c {
        "PUSH13"
    } else     if b == 0x6d {
        "PUSH14"
    } else     if b == 0x6e {
        "PUSH15"
    } else     if b == 0x6f {
        "PUSH16"
    } else     if b == 0x70 {
        "PUSH17"
    } else     if b == 0x71 {
        "PUSH18"
    } else     if b == 0x72 {
        "PUSH19"
    } else     if b == 0x73 {
        "PUSH20"
    } else     if b == 0x74 {
        "PUSH21"
    } else     if b == 0x75 {
        "PUSH22"
    } else     if b == 0x76 {
        "PUSH23"
    } else     if b == 0x77 {
        "PUSH24"
    } else     if b == 0x78 {
        "PUSH25"
    } else     if b == 0x79 {
        "PUSH26"
    } else     if b == 0x7a {
        "PUSH27"
    } else     if b == 0x7b {
        "PUSH28"
    } else     if b == 0x7c {
        "PUSH29"
    } else     if b == 0x7d {
        "PUSH30"
    } else     if b == 0x7e {
        "PUSH31"
    } else     if b == 0x7f {
        "PUSH32"
    } else     if b == 0x80 {
        "DUP1"
    } else     if b == 0x81 {
        "DUP2"
    } else     if b == 0x82 {
        "DUP3"
    } else     if b == 0x83 {
        "DUP4"
    } else     if b == 0x84 {
        "DUP5"
    } else     if b == 0x85 {
        "DUP6"
    } else     if b == 0x86 {
        "DUP7"
    } else     if b == 0x87 {
        "DUP8"
    } else     if b == 0x88 {
        "DUP9"
    } else     if b == 0x89 {
        "DUP10"
    } else     if b == 0x8a {
        "DUP11"
    } else     if b == 0x8b {
        "DUP12"
    } else     if b == 0x8c {
        "DUP13"
    } else     if b == 0x8d {
        "DUP14"
    } else     if b == 0x8e {
        "DUP15"
    } else     if b == 0x8f {
        "DUP16"
    } else     if b == 0x90 {
        "SWAP1"
    } else     if b == 0x91 {
        "SWAP2"
    } else     if b == 0x92 {
        "SWAP3"
    } else     if b == 0x93 {
        "SWAP4"
    } else     if b == 0x94 {
        "SWAP5"
    } else     if b == 0x95 {
        "SWAP6"
    } else     if b == 0x96 {
        "SWAP7"
    } else     if b == 0x97 {
        "SWAP8"
    } else     if b == 0x98 {
        "SWAP9"
    } else     if b == 0x99 {
        "SWAP10"
    } else     if b == 0x9a {
        "SWAP11"
    } else     if b == 0x9b {
        "SWAP12"
    } else     if b == 0x9c {
        "SWAP13"
    } else     if b == 0x9d {
        "SWAP14"
    } else     if b == 0x9e {
        "SWAP15"
    } else     if b == 0x9f {
        "SWAP16"
    } else     if b == 0xa0 {
        "LOG0"
    } else     if b == 0xa1 {
        "LOG1"
    } else     if b == 0xa2 {
        "LOG2"
    } else     if b == 0xa3 {
        "LOG3"
    } else     if b == 0xa4 {
        "LOG4"
    } else     if b == 0xf0 {
        "CREATE"
    } else     if b == 0xf1 {
        "CALL"
    } else     if b == 0xf2 {
        "CALLCODE"
    } else     if b == 0xf3 {
        "RETURN"
    } else     if b == 0xf4 {
        "DELEGATECALL"
    } else     if b == 0xf5 {
        "CREATE2"
    } else     if b == 0xfa {
        "STATICCALL"
    } else     if b == 0xfd {
        "REVERT"
    } else     if b == 0xfe {
        "INVALID"
    } else     if b == 0xff {
        "SELFDESTRUCT"
    } else {
        "unknown"
    }
}

/// Number of two-character chunks the bytecode splits into; a trailing
/// lone character is a chunk of its own.
pub open spec fn spec_chunk_count(s: Seq<char>) -> nat {
    ((s.len() + 1) / 2) as nat
}

/// The byte a chunk encodes, if both its characters are there and are
/// hexadecimal.
pub open spec fn spec_chunk_byte(s: Seq<char>, pc: int) -> Option<u8> {
    if 2 * pc + 2 <= s.len() {
        spec_pair_byte(s[2 * pc], s[2 * pc + 1])
    } else {
        None
    }
}

/// Push-data size the chunk at `pc` asks for.
pub open spec fn spec_chunk_push_size(s: Seq<char>, pc: int) -> nat {
    match spec_chunk_byte(s, pc) {
        Some(b) => spec_push_size(b),
        None => 0,
    }
}

/// Mnemonic of the chunk at `pc`.
pub open spec fn spec_chunk_name(s: Seq<char>, pc: int) -> Seq<char> {
    match spec_chunk_byte(s, pc) {
        Some(b) => spec_opcode_name(b),
        None => "unknown"@,
    }
}

/// The listing from chunk `pc` on. Each line holds the program counter
/// after the push data, the mnemonic, and the raw pushed characters; a
/// push whose data runs off the end ends the listing.
pub open spec fn spec_disasm_from(s: Seq<char>, pc: nat) -> Seq<char>
    decreases spec_chunk_count(s) - pc,
{
    if pc >= spec_chunk_count(s) {
        Seq::empty()
    } else {
        let nb = spec_chunk_push_size(s, pc as int);
        if nb > 0 && pc + 1 + nb > spec_chunk_count(s) {
            Seq::empty()
        } else {
            let hi = vstd::math::min(2 * (pc + 1 + nb) as int, s.len() as int);
            let lo = vstd::math::min(2 * (pc + 1) as int, hi);
            spec_dec_digits((pc + nb) as nat) + " "@ + spec_chunk_name(s, pc as int) + " "@
                + s.subrange(lo, hi) + "\n"@ + spec_disasm_from(s, (pc + nb + 1) as nat)
        }
    }
}

/// The full assembly listing of hex-encoded bytecode.
pub open spec fn spec_disassemble(s: Seq<char>) -> Seq<char> {
    spec_disasm_from(s, 0)
}

/// Disassembles hex-encoded bytecode to an assembly listing, one line per
/// instruction.
#[verifier::rlimit(60)]
pub fn disassemble(contract_bytecode: String) -> (r: String)
    requires
        contract_bytecode@.len() <= usize::MAX - 66,
    ensures
        r@ == spec_disassemble(contract_bytecode@),
{
    let s = contract_bytecode.as_str();
    let n = s.unicode_len();
    let chunk_cnt: usize = n / 2 + n % 2;
    proof {
        assert(chunk_cnt == spec_chunk_count(s@));
    }
    let mut out = String::new();
    let mut pc: usize = 0;
    proof {
        assert(spec_disassemble(s@) =~= out@ + spec_disasm_from(s@, 0));
    }
    while pc < chunk_cnt
        invariant
            s@ == contract_bytecode@,
            n == s@.len(),
            n <= usize::MAX - 66,
            chunk_cnt == spec_chunk_count(s@),
            pc <= chunk_cnt,
            spec_disassemble(s@) == out@ + spec_disasm_from(s@, pc as nat),
        decreases chunk_cnt - pc,
    {
        let ob: Option<u8> = if 2 * pc + 2 <= n {
            let c1 = s.get_char(2 * pc);
            let c2 = s.get_char(2 * pc + 1);
            pair_byte(c1, c2)
        } else {
            None
        };
        proof {
            assert(ob == spec_chunk_byte(s@, pc as int));
        }
        let (name, nb): (&str, u8) = match ob {
            Some(b) => (opcode_name(b), push_size(b)),
            None => ("unknown", 0),
        };
        let nbu = nb as usize;
        proof {
            assert(name@ == spec_chunk_name(s@, pc as int));
            assert(nbu as nat == spec_chunk_push_size(s@, pc as int));
        }
        if nbu > 0 && pc + 1 + nbu > chunk_cnt {
            proof {
                assert(spec_disasm_from(s@, pc as nat) =~= Seq::<char>::empty());
                assert(out@ =~= spec_disassemble(s@));
            }
            return out;
        }
        let hi0 = 2 * (pc + 1 + nbu);
        let hi = if hi0 > n {
            n
        } else {
            hi0
        };
        let lo0 = 2 * (pc + 1);
        let lo = if lo0 > hi {
            hi
        } else {
            lo0
        };
        let pushed = s.substring_char(lo, hi);
        let num = usize_to_string(pc + nbu);
        let ghost out0 = out@;
        out.append(num.as_str());
        out.append(" ");
        out.append(name);
        out.append(" ");
        out.append(pushed);
        out.append("\n");
        proof {
            let line = spec_dec_digits((pc + nbu) as nat) + " "@ + spec_chunk_name(
                s@,
                pc as int,
            ) + " "@ + s@.subrange(lo as int, hi as int) + "\n"@;
            assert(out@ =~= out0 + line);
            assert(spec_disasm_from(s@, pc as nat) == line + spec_disasm_from(
                s@,
                (pc + nbu + 1) as nat,
            ));
            assert(out0 + line + spec_disasm_from(s@, (pc + nbu + 1) as nat) =~= out0 + (line
                + spec_disasm_from(s@, (pc + nbu + 1) as nat)));
            assert(spec_disassemble(s@) == (out0 + line) + spec_disasm_from(
                s@,
                (pc + nbu + 1) as nat,
            ));
        }
        pc = pc + 1 + nbu;
    }
    proof {
        assert(spec_disasm_from(s@, pc as nat) =~= Seq::<char>::empty());
        assert(out@ =~= spec_disassemble(s@));
    }
    out
}

} // verus!
