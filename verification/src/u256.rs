//! A 256-bit EVM word modelled as four 64-bit limbs, least significant
//! first, with its unsigned and two's-complement signed values as the
//! mathematical view.

use vstd::prelude::*;

verus! {

/// 2^64, the weight of one limb.
pub open spec fn limb_base() -> nat {
    0x1_0000_0000_0000_0000nat
}

/// 2^256, the size of the word's value space.
pub open spec fn word_base() -> nat {
    0x1_0000_0000_0000_0000_0000_0000_0000_0000_0000_0000_0000_0000_0000_0000_0000_0000nat
}

/// A 256-bit EVM word; `limb0` is least significant.
#[derive(Clone, Copy, PartialEq, Eq, Structural, Debug)]
pub struct U256 {
    pub limb0: u64,
    pub limb1: u64,
    pub limb2: u64,
    pub limb3: u64,
}

impl U256 {
    /// The word's value as an unsigned integer.
    pub open spec fn as_nat(self) -> nat {
        self.limb0 as nat + self.limb1 as nat * 0x1_0000_0000_0000_0000nat
            + self.limb2 as nat * 0x1_0000_0000_0000_0000_0000_0000_0000_0000nat
            + self.limb3 as nat * 0x1_0000_0000_0000_0000_0000_0000_0000_0000_0000_0000_0000_0000nat
    }

    /// True when the word is negative as a two's-complement integer.
    pub open spec fn spec_negative(self) -> bool {
        self.limb3 >= 0x8000_0000_0000_0000
    }

    /// The word's value as a two's-complement signed integer.
    pub open spec fn as_int(self) -> int {
        if self.spec_negative() {
            self.as_nat() - word_base()
        } else {
            self.as_nat() as int
        }
    }

    /// The all-zero word.
    pub fn zero() -> (r: U256)
        ensures
            r.as_nat() == 0,
    {
        U256 { limb0: 0, limb1: 0, limb2: 0, limb3: 0 }
    }

    /// The word holding 1.
    pub fn one() -> (r: U256)
        ensures
            r.as_nat() == 1,
    {
        U256 { limb0: 1, limb1: 0, limb2: 0, limb3: 0 }
    }

    /// The word holding `x`.
    pub fn from_u64(x: u64) -> (r: U256)
        ensures
            r.as_nat() == x,
    {
        U256 { limb0: x, limb1: 0, limb2: 0, limb3: 0 }
    }

    /// Equal limbs mean equal values and conversely.
    #[verifier::rlimit(100)]
    pub proof fn lemma_as_nat_injective(a: U256, b: U256)
        ensures
            (a.as_nat() == b.as_nat()) <==> (a.limb0 == b.limb0 && a.limb1 == b.limb1
                && a.limb2 == b.limb2 && a.limb3 == b.limb3),
    {
    }

    /// The word's 32 little-endian bytes.
    pub open spec fn spec_to_le_bytes(self) -> Seq<u8> {
        vstd::bytes::spec_u64_to_le_bytes(self.limb0) + vstd::bytes::spec_u64_to_le_bytes(
            self.limb1,
        ) + vstd::bytes::spec_u64_to_le_bytes(self.limb2) + vstd::bytes::spec_u64_to_le_bytes(
            self.limb3,
        )
    }

    /// The word's 32 big-endian bytes.
    pub open spec fn spec_to_be_bytes(self) -> Seq<u8> {
        self.spec_to_le_bytes().reverse()
    }

    /// Serializes the word as 32 little-endian bytes.
    pub fn to_le_bytes(&self) -> (r: Vec<u8>)
        ensures
            r@ == self.spec_to_le_bytes(),
            r@.len() == 32,
    {
        proof {
            vstd::bytes::lemma_auto_spec_u64_to_from_le_bytes();
        }
        let mut r = vstd::bytes::u64_to_le_bytes(self.limb0);
        let mut b1 = vstd::bytes::u64_to_le_bytes(self.limb1);
        let mut b2 = vstd::bytes::u64_to_le_bytes(self.limb2);
        let mut b3 = vstd::bytes::u64_to_le_bytes(self.limb3);
        r.append(&mut b1);
        r.append(&mut b2);
        r.append(&mut b3);
        r
    }

    /// Serializes the word as 32 big-endian bytes.
    pub fn to_be_bytes(&self) -> (r: Vec<u8>)
        ensures
            r@ == self.spec_to_be_bytes(),
            r@.len() == 32,
    {
        let le = self.to_le_bytes();
        let mut r: Vec<u8> = Vec::new();
        let mut i: usize = 32;
        while i > 0
            invariant
                i <= 32,
                le@.len() == 32,
                le@ == self.spec_to_le_bytes(),
                r@.len() == 32 - i,
                forall|k: int| 0 <= k < r@.len() ==> r@[k] == le@[31 - k],
            decreases i,
        {
            i -= 1;
            r.push(le[i]);
        }
        proof {
            assert(r@ =~= le@.reverse());
        }
        r
    }

    /// Reads a word from 32 big-endian bytes.
    pub fn from_be_bytes(s: &Vec<u8>) -> (r: U256)
        requires
            s@.len() == 32,
        ensures
            r.spec_to_be_bytes() == s@,
    {
        let mut le: Vec<u8> = Vec::new();
        let mut i: usize = 32;
        while i > 0
            invariant
                i <= 32,
                s@.len() == 32,
                le@.len() == 32 - i,
                forall|k: int| 0 <= k < le@.len() ==> le@[k] == s@[31 - k],
            decreases i,
        {
            i -= 1;
            le.push(s[i]);
        }
        let sl = le.as_slice();
        let limb0 = vstd::bytes::u64_from_le_bytes(vstd::slice::slice_subrange(sl, 0, 8));
        let limb1 = vstd::bytes::u64_from_le_bytes(vstd::slice::slice_subrange(sl, 8, 16));
        let limb2 = vstd::bytes::u64_from_le_bytes(vstd::slice::slice_subrange(sl, 16, 24));
        let limb3 = vstd::bytes::u64_from_le_bytes(vstd::slice::slice_subrange(sl, 24, 32));
        let r = U256 { limb0, limb1, limb2, limb3 };
        proof {
            vstd::bytes::lemma_auto_spec_u64_to_from_le_bytes();
            assert(r.spec_to_le_bytes() =~= le@);
            assert(r.spec_to_le_bytes().reverse() =~= s@);
        }
        r
    }

    /// Distinct words have distinct big-endian serializations.
    pub proof fn lemma_to_be_bytes_injective(a: U256, b: U256)
        requires
            a.spec_to_be_bytes() == b.spec_to_be_bytes(),
        ensures
            a == b,
    {
        vstd::bytes::lemma_auto_spec_u64_to_from_le_bytes();
        assert(a.spec_to_le_bytes().len() == 32);
        assert(b.spec_to_le_bytes().len() == 32);
        assert(a.spec_to_le_bytes() =~= b.spec_to_le_bytes()) by {
            assert forall|k: int| 0 <= k < 32 implies a.spec_to_le_bytes()[k]
                == b.spec_to_le_bytes()[k] by {
                assert(a.spec_to_be_bytes()[31 - k] == a.spec_to_le_bytes()[k]);
                assert(b.spec_to_be_bytes()[31 - k] == b.spec_to_le_bytes()[k]);
            }
        }
        assert(vstd::bytes::spec_u64_to_le_bytes(a.limb0) =~= a.spec_to_le_bytes().subrange(0, 8));
        assert(vstd::bytes::spec_u64_to_le_bytes(a.limb1) =~= a.spec_to_le_bytes().subrange(8, 16));
        assert(vstd::bytes::spec_u64_to_le_bytes(a.limb2) =~= a.spec_to_le_bytes().subrange(
            16,
            24,
        ));
        assert(vstd::bytes::spec_u64_to_le_bytes(a.limb3) =~= a.spec_to_le_bytes().subrange(
            24,
            32,
        ));
        assert(vstd::bytes::spec_u64_to_le_bytes(b.limb0) =~= b.spec_to_le_bytes().subrange(0, 8));
        assert(vstd::bytes::spec_u64_to_le_bytes(b.limb1) =~= b.spec_to_le_bytes().subrange(8, 16));
        assert(vstd::bytes::spec_u64_to_le_bytes(b.limb2) =~= b.spec_to_le_bytes().subrange(
            16,
            24,
        ));
        assert(vstd::bytes::spec_u64_to_le_bytes(b.limb3) =~= b.spec_to_le_bytes().subrange(
            24,
            32,
        ));
        assert(a.limb0 == vstd::bytes::spec_u64_from_le_bytes(
            vstd::bytes::spec_u64_to_le_bytes(a.limb0),
        ));
        assert(a.limb1 == vstd::bytes::spec_u64_from_le_bytes(
            vstd::bytes::spec_u64_to_le_bytes(a.limb1),
        ));
        assert(a.limb2 == vstd::bytes::spec_u64_from_le_bytes(
            vstd::bytes::spec_u64_to_le_bytes(a.limb2),
        ));
        assert(a.limb3 == vstd::bytes::spec_u64_from_le_bytes(
            vstd::bytes::spec_u64_to_le_bytes(a.limb3),
        ));
    }
}

/// The value little-endian bytes encode in base 256.
pub open spec fn spec_le_bytes_value(s: Seq<u8>) -> nat
    decreases s.len(),
{
    if s.len() == 0 {
        0
    } else {
        s[0] as nat + 256 * spec_le_bytes_value(s.subrange(1, s.len() as int))
    }
}

/// Concatenation splits the encoded value at the boundary.
proof fn lemma_le_bytes_value_concat(a: Seq<u8>, b: Seq<u8>)
    ensures
        spec_le_bytes_value(a + b) == spec_le_bytes_value(a)
            + vstd::arithmetic::power2::pow2(8 * a.len()) * spec_le_bytes_value(b),
    decreases a.len(),
{
    if a.len() == 0 {
        assert(a + b =~= b);
        assert(vstd::arithmetic::power2::pow2(0) == 1) by {
            vstd::arithmetic::power2::lemma2_to64();
        }
    } else {
        let rest = a.subrange(1, a.len() as int);
        assert((a + b).subrange(1, (a + b).len() as int) =~= rest + b);
        lemma_le_bytes_value_concat(rest, b);
        vstd::arithmetic::power2::lemma_pow2_adds(8, 8 * (a.len() - 1) as nat);
        assert(vstd::arithmetic::power2::pow2(8) == 256) by {
            vstd::arithmetic::power2::lemma2_to64();
        }
        let p = vstd::arithmetic::power2::pow2(8 * (a.len() - 1) as nat);
        assert(256 * (spec_le_bytes_value(rest) + p * spec_le_bytes_value(b))
            == 256 * spec_le_bytes_value(rest) + (256 * p) * spec_le_bytes_value(b))
            by (nonlinear_arith);
    }
}

/// One limb's eight little-endian bytes encode the limb.
proof fn lemma_le_bytes_value_u64(l: u64)
    ensures
        spec_le_bytes_value(vstd::bytes::spec_u64_to_le_bytes(l)) == l,
{
    vstd::bytes::spec_u64_to_le_bytes_to_open(l);
    let s = vstd::bytes::spec_u64_to_le_bytes_open(l);
    assert(s.subrange(1, 8) =~= seq![
        ((l >> 8u64) & 0xff) as u8,
        ((l >> 16u64) & 0xff) as u8,
        ((l >> 24u64) & 0xff) as u8,
        ((l >> 32u64) & 0xff) as u8,
        ((l >> 40u64) & 0xff) as u8,
        ((l >> 48u64) & 0xff) as u8,
        ((l >> 56u64) & 0xff) as u8,
    ]);
    assert(s.subrange(1, 8).subrange(1, 7) =~= seq![
        ((l >> 16u64) & 0xff) as u8,
        ((l >> 24u64) & 0xff) as u8,
        ((l >> 32u64) & 0xff) as u8,
        ((l >> 40u64) & 0xff) as u8,
        ((l >> 48u64) & 0xff) as u8,
        ((l >> 56u64) & 0xff) as u8,
    ]);
    let s2 = s.subrange(1, 8).subrange(1, 7);
    assert(s2.subrange(1, 6) =~= seq![
        ((l >> 24u64) & 0xff) as u8,
        ((l >> 32u64) & 0xff) as u8,
        ((l >> 40u64) & 0xff) as u8,
        ((l >> 48u64) & 0xff) as u8,
        ((l >> 56u64) & 0xff) as u8,
    ]);
    let s3 = s2.subrange(1, 6);
    assert(s3.subrange(1, 5) =~= seq![
        ((l >> 32u64) & 0xff) as u8,
        ((l >> 40u64) & 0xff) as u8,
        ((l >> 48u64) & 0xff) as u8,
        ((l >> 56u64) & 0xff) as u8,
    ]);
    let s4 = s3.subrange(1, 5);
    assert(s4.subrange(1, 4) =~= seq![
        ((l >> 40u64) & 0xff) as u8,
        ((l >> 48u64) & 0xff) as u8,
        ((l >> 56u64) & 0xff) as u8,
    ]);
    let s5 = s4.subrange(1, 4);
    assert(s5.subrange(1, 3) =~= seq![
        ((l >> 48u64) & 0xff) as u8,
        ((l >> 56u64) & 0xff) as u8,
    ]);
    let s6 = s5.subrange(1, 3);
    assert(s6.subrange(1, 2) =~= seq![((l >> 56u64) & 0xff) as u8]);
    let s7 = s6.subrange(1, 2);
    assert(s7.subrange(1, 1) =~= Seq::<u8>::empty());
    assert((l & 0xff) < 256 && ((l >> 8u64) & 0xff) < 256 && ((l >> 16u64) & 0xff) < 256 && ((l
        >> 24u64) & 0xff) < 256 && ((l >> 32u64) & 0xff) < 256 && ((l >> 40u64) & 0xff) < 256 && ((
    l >> 48u64) & 0xff) < 256 && ((l >> 56u64) & 0xff) < 256) by (bit_vector);
    assert(spec_le_bytes_value(s7.subrange(1, 1)) == 0);
    assert(spec_le_bytes_value(s7) == ((l >> 56u64) & 0xff));
    assert(spec_le_bytes_value(s6) == ((l >> 48u64) & 0xff) + 256 * spec_le_bytes_value(s7));
    assert(spec_le_bytes_value(s5) == ((l >> 40u64) & 0xff) + 256 * spec_le_bytes_value(s6));
    assert(spec_le_bytes_value(s4) == ((l >> 32u64) & 0xff) + 256 * spec_le_bytes_value(s5));
    assert(spec_le_bytes_value(s3) == ((l >> 24u64) & 0xff) + 256 * spec_le_bytes_value(s4));
    assert(spec_le_bytes_value(s2) == ((l >> 16u64) & 0xff) + 256 * spec_le_bytes_value(s3));
    assert(spec_le_bytes_value(s.subrange(1, 8)) == ((l >> 8u64) & 0xff) + 256
        * spec_le_bytes_value(s2));
    assert(spec_le_bytes_value(s) == (l & 0xff) + 256 * spec_le_bytes_value(s.subrange(1, 8)));
    assert((l & 0xff) + 256 * (((l >> 8u64) & 0xff) + 256 * (((l >> 16u64) & 0xff) + 256 * (((l
        >> 24u64) & 0xff) + 256 * (((l >> 32u64) & 0xff) + 256 * (((l >> 40u64) & 0xff) + 256 * ((
    (l >> 48u64) & 0xff) + 256 * ((l >> 56u64) & 0xff))))))) == l) by (bit_vector);
}

/// The 32 little-endian bytes encode the word's value in base 256, so
/// the serialization and the word determine each other.
pub proof fn lemma_to_le_bytes_value(x: U256)
    ensures
        spec_le_bytes_value(x.spec_to_le_bytes()) == x.as_nat(),
{
    let b0 = vstd::bytes::spec_u64_to_le_bytes(x.limb0);
    let b1 = vstd::bytes::spec_u64_to_le_bytes(x.limb1);
    let b2 = vstd::bytes::spec_u64_to_le_bytes(x.limb2);
    let b3 = vstd::bytes::spec_u64_to_le_bytes(x.limb3);
    vstd::bytes::lemma_auto_spec_u64_to_from_le_bytes();
    lemma_le_bytes_value_u64(x.limb0);
    lemma_le_bytes_value_u64(x.limb1);
    lemma_le_bytes_value_u64(x.limb2);
    lemma_le_bytes_value_u64(x.limb3);
    assert(x.spec_to_le_bytes() =~= b0 + (b1 + (b2 + b3)));
    lemma_le_bytes_value_concat(b2, b3);
    lemma_le_bytes_value_concat(b1, b2 + b3);
    lemma_le_bytes_value_concat(b0, b1 + (b2 + b3));
    vstd::arithmetic::power2::lemma2_to64();
    vstd::arithmetic::power2::lemma2_to64_rest();
    let p64 = vstd::arithmetic::power2::pow2(64);
    assert(spec_le_bytes_value(x.spec_to_le_bytes()) == x.limb0 + p64 * (x.limb1 as nat + p64 * (
    x.limb2 as nat + p64 * x.limb3 as nat)));
    assert(p64 * (x.limb1 as nat + p64 * (x.limb2 as nat + p64 * x.limb3 as nat)) == p64
        * x.limb1 as nat + (p64 * p64) * x.limb2 as nat + (p64 * (p64 * p64)) * x.limb3 as nat)
        by (nonlinear_arith);
    assert((p64 * p64) * x.limb2 as nat == x.limb2 as nat
        * 0x1_0000_0000_0000_0000_0000_0000_0000_0000nat) by (nonlinear_arith)
        requires
            p64 == 0x1_0000_0000_0000_0000nat,
    ;
    assert((p64 * (p64 * p64)) * x.limb3 as nat == x.limb3 as nat
        * 0x1_0000_0000_0000_0000_0000_0000_0000_0000_0000_0000_0000_0000nat) by (nonlinear_arith)
        requires
            p64 == 0x1_0000_0000_0000_0000nat,
    ;
}

/// Each little-endian byte is a base-256 digit of the encoded value.
pub proof fn lemma_le_bytes_value_byte(s: Seq<u8>, k: int)
    requires
        0 <= k < s.len(),
    ensures
        s[k] as nat == (spec_le_bytes_value(s) / vstd::arithmetic::power2::pow2((8 * k) as nat))
            % 256,
    decreases k,
{
    let v = spec_le_bytes_value(s) as int;
    let rest = s.subrange(1, s.len() as int);
    let rv = spec_le_bytes_value(rest) as int;
    vstd::arithmetic::power2::lemma2_to64();
    if k == 0 {
        assert(v == s[0] + 256 * rv);
        vstd::arithmetic::div_mod::lemma_mod_multiples_vanish(rv, s[0] as int, 256);
        vstd::arithmetic::div_mod::lemma_small_mod(s[0] as nat, 256);
        assert(v / 1 == v) by {
            vstd::arithmetic::div_mod::lemma_fundamental_div_mod_converse(v, 1, v, 0);
        }
    } else {
        lemma_le_bytes_value_byte(rest, k - 1);
        let p = vstd::arithmetic::power2::pow2((8 * (k - 1)) as nat) as int;
        vstd::arithmetic::power2::lemma_pow2_pos((8 * (k - 1)) as nat);
        vstd::arithmetic::power2::lemma_pow2_adds(8, (8 * (k - 1)) as nat);
        assert(v == 256 * rv + s[0]);
        vstd::arithmetic::div_mod::lemma_fundamental_div_mod_converse(v, 256, rv, s[0] as int);
        lemma_div_div(v, 256, p);
        assert(v / (256 * p) == rv / p);
        assert(256 * p == vstd::arithmetic::power2::pow2((8 * k) as nat));
        assert(s[k] == rest[k - 1]);
    }
}

/// The word whose 32 little-endian bytes are `s`.
pub open spec fn spec_u256_from_le_bytes(s: Seq<u8>) -> U256
    recommends
        s.len() == 32,
{
    U256 {
        limb0: vstd::bytes::spec_u64_from_le_bytes(s.subrange(0, 8)),
        limb1: vstd::bytes::spec_u64_from_le_bytes(s.subrange(8, 16)),
        limb2: vstd::bytes::spec_u64_from_le_bytes(s.subrange(16, 24)),
        limb3: vstd::bytes::spec_u64_from_le_bytes(s.subrange(24, 32)),
    }
}

/// Deserializing a word's little-endian serialization gives the word back.
pub proof fn lemma_u256_from_to_le_bytes(x: U256)
    ensures
        spec_u256_from_le_bytes(x.spec_to_le_bytes()) == x,
{
    vstd::bytes::lemma_auto_spec_u64_to_from_le_bytes();
    assert(x.spec_to_le_bytes().subrange(0, 8) =~= vstd::bytes::spec_u64_to_le_bytes(x.limb0));
    assert(x.spec_to_le_bytes().subrange(8, 16) =~= vstd::bytes::spec_u64_to_le_bytes(x.limb1));
    assert(x.spec_to_le_bytes().subrange(16, 24) =~= vstd::bytes::spec_u64_to_le_bytes(x.limb2));
    assert(x.spec_to_le_bytes().subrange(24, 32) =~= vstd::bytes::spec_u64_to_le_bytes(x.limb3));
}

/// Shifts the word left by one bit, dropping the top bit.
pub fn u256_shl1(x: U256) -> (r: U256)
    ensures
        r.as_nat() == (x.as_nat() * 2) % word_base(),
{
    let r = U256 {
        limb0: x.limb0 << 1u64,
        limb1: (x.limb1 << 1u64) | (x.limb0 >> 63u64),
        limb2: (x.limb2 << 1u64) | (x.limb1 >> 63u64),
        limb3: (x.limb3 << 1u64) | (x.limb2 >> 63u64),
    };
    proof {
        let x0 = x.limb0;
        let x1 = x.limb1;
        let x2 = x.limb2;
        let x3 = x.limb3;
        assert((x0 << 1u64) == (2 * x0) % 0x1_0000_0000_0000_0000 && 2 * x0
            == 0x1_0000_0000_0000_0000 * (x0 / 0x8000_0000_0000_0000) + (2 * x0)
            % 0x1_0000_0000_0000_0000) by (bit_vector);
        assert(((x1 << 1u64) | (x0 >> 63u64)) == (2 * x1) % 0x1_0000_0000_0000_0000 + x0
            / 0x8000_0000_0000_0000 && 2 * x1 == 0x1_0000_0000_0000_0000 * (x1
            / 0x8000_0000_0000_0000) + (2 * x1) % 0x1_0000_0000_0000_0000) by (bit_vector);
        assert(((x2 << 1u64) | (x1 >> 63u64)) == (2 * x2) % 0x1_0000_0000_0000_0000 + x1
            / 0x8000_0000_0000_0000 && 2 * x2 == 0x1_0000_0000_0000_0000 * (x2
            / 0x8000_0000_0000_0000) + (2 * x2) % 0x1_0000_0000_0000_0000) by (bit_vector);
        assert(((x3 << 1u64) | (x2 >> 63u64)) == (2 * x3) % 0x1_0000_0000_0000_0000 + x2
            / 0x8000_0000_0000_0000 && 2 * x3 == 0x1_0000_0000_0000_0000 * (x3
            / 0x8000_0000_0000_0000) + (2 * x3) % 0x1_0000_0000_0000_0000) by (bit_vector);
        let carry = x3 as int / 0x8000_0000_0000_0000;
        assert(2 * x.as_nat() == r.as_nat() + word_base() * carry);
        vstd::arithmetic::div_mod::lemma_mod_multiples_vanish(
            carry,
            r.as_nat() as int,
            word_base() as int,
        );
        vstd::arithmetic::div_mod::lemma_small_mod(r.as_nat(), word_base());
    }
    r
}

/// Shifts the word right by one bit.
pub fn u256_shr1(x: U256) -> (r: U256)
    ensures
        r.as_nat() == x.as_nat() / 2,
{
    let r = U256 {
        limb0: (x.limb0 >> 1u64) | (x.limb1 << 63u64),
        limb1: (x.limb1 >> 1u64) | (x.limb2 << 63u64),
        limb2: (x.limb2 >> 1u64) | (x.limb3 << 63u64),
        limb3: x.limb3 >> 1u64,
    };
    proof {
        lemma_shr1_value(x, r);
    }
    r
}

/// Value of the word after a one-bit right shift of the limbs.
proof fn lemma_shr1_value(x: U256, r: U256)
    requires
        r.limb0 == (x.limb0 >> 1u64) | (x.limb1 << 63u64),
        r.limb1 == (x.limb1 >> 1u64) | (x.limb2 << 63u64),
        r.limb2 == (x.limb2 >> 1u64) | (x.limb3 << 63u64),
        r.limb3 == x.limb3 >> 1u64,
    ensures
        r.as_nat() == x.as_nat() / 2,
        x.as_nat() == 2 * r.as_nat() + x.limb0 % 2,
{
    let x0 = x.limb0;
    let x1 = x.limb1;
    let x2 = x.limb2;
    let x3 = x.limb3;
    assert(((x0 >> 1u64) | (x1 << 63u64)) == x0 / 2 + (x1 % 2) * 0x8000_0000_0000_0000 && x0 == 2
        * (x0 / 2) + x0 % 2) by (bit_vector);
    assert(((x1 >> 1u64) | (x2 << 63u64)) == x1 / 2 + (x2 % 2) * 0x8000_0000_0000_0000 && x1 == 2
        * (x1 / 2) + x1 % 2) by (bit_vector);
    assert(((x2 >> 1u64) | (x3 << 63u64)) == x2 / 2 + (x3 % 2) * 0x8000_0000_0000_0000 && x2 == 2
        * (x2 / 2) + x2 % 2) by (bit_vector);
    assert((x3 >> 1u64) == x3 / 2 && x3 == 2 * (x3 / 2) + x3 % 2) by (bit_vector);
    assert(x.as_nat() == 2 * r.as_nat() + x0 % 2);
    vstd::arithmetic::div_mod::lemma_fundamental_div_mod_converse(
        x.as_nat() as int,
        2,
        r.as_nat() as int,
        (x0 % 2) as int,
    );
}

/// Shifts the word right by one bit, keeping the sign bit.
pub fn u256_sar1(x: U256) -> (r: U256)
    ensures
        r.as_int() == x.as_int() / 2,
{
    let r = U256 {
        limb0: (x.limb0 >> 1u64) | (x.limb1 << 63u64),
        limb1: (x.limb1 >> 1u64) | (x.limb2 << 63u64),
        limb2: (x.limb2 >> 1u64) | (x.limb3 << 63u64),
        limb3: (x.limb3 >> 1u64) | (x.limb3 & 0x8000_0000_0000_0000u64),
    };
    proof {
        let x3 = x.limb3;
        let plain = U256 { limb3: x3 >> 1u64, ..r };
        assert((x3 < 0x8000_0000_0000_0000 ==> ((x3 >> 1u64) | (x3 & 0x8000_0000_0000_0000u64))
            == x3 >> 1u64) && (x3 >= 0x8000_0000_0000_0000 ==> ((x3 >> 1u64) | (x3
            & 0x8000_0000_0000_0000u64)) == (x3 >> 1u64) + 0x8000_0000_0000_0000) && (x3 >> 1u64)
            < 0x8000_0000_0000_0000) by (bit_vector);
        lemma_shr1_value(x, plain);
        if x.spec_negative() {
            assert(r.as_nat() == plain.as_nat() + 0x8000_0000_0000_0000
                * 0x1_0000_0000_0000_0000_0000_0000_0000_0000_0000_0000_0000_0000nat);
            assert(r.spec_negative());
            assert(x.as_int() == 2 * r.as_int() + x.limb0 % 2);
            vstd::arithmetic::div_mod::lemma_fundamental_div_mod_converse(
                x.as_int(),
                2,
                r.as_int(),
                (x.limb0 % 2) as int,
            );
        } else {
            assert(r == plain);
            assert(!r.spec_negative());
            vstd::arithmetic::div_mod::lemma_fundamental_div_mod_converse(
                x.as_int(),
                2,
                r.as_int(),
                (x.limb0 % 2) as int,
            );
        }
    }
    r
}

/// Division composes across positive divisors, for any dividend.
pub proof fn lemma_div_div(v: int, c: int, d: int)
    requires
        0 < c,
        0 < d,
    ensures
        (v / c) / d == v / (c * d),
{
    vstd::arithmetic::div_mod::lemma_fundamental_div_mod(v, c);
    vstd::arithmetic::div_mod::lemma_fundamental_div_mod(v / c, d);
    vstd::arithmetic::div_mod::lemma_mod_bound(v, c);
    vstd::arithmetic::div_mod::lemma_mod_bound(v / c, d);
    let q = (v / c) / d;
    let rem = ((v / c) % d) * c + v % c;
    assert(v == q * (c * d) + rem) by (nonlinear_arith)
        requires
            v == c * (v / c) + v % c,
            v / c == d * ((v / c) / d) + (v / c) % d,
            q == (v / c) / d,
            rem == ((v / c) % d) * c + v % c,
    ;
    assert(0 <= rem < c * d) by (nonlinear_arith)
        requires
            0 <= (v / c) % d <= d - 1,
            0 <= v % c < c,
            0 < c,
            0 < d,
            rem == ((v / c) % d) * c + v % c,
    ;
    vstd::arithmetic::div_mod::lemma_fundamental_div_mod_converse(v, c * d, q, rem);
}

/// Shifts the word left by `shift` bits, dropping overflow.
pub fn u256_shl(x: U256, shift: usize) -> (r: U256)
    requires
        shift <= 256,
    ensures
        r.as_nat() == (x.as_nat() * vstd::arithmetic::power2::pow2(shift as nat)) % word_base(),
{
    proof {
        vstd::arithmetic::power2::lemma2_to64();
        vstd::arithmetic::div_mod::lemma_small_mod(x.as_nat(), word_base());
    }
    let mut r = x;
    let mut j: usize = 0;
    while j < shift
        invariant
            j <= shift,
            r.as_nat() == (x.as_nat() * vstd::arithmetic::power2::pow2(j as nat)) % word_base(),
        decreases shift - j,
    {
        let prev = r;
        r = u256_shl1(r);
        proof {
            let p = vstd::arithmetic::power2::pow2(j as nat) as int;
            let m = word_base() as int;
            vstd::arithmetic::power2::lemma_pow2_adds(j as nat, 1);
            vstd::arithmetic::power2::lemma2_to64();
            vstd::arithmetic::div_mod::lemma_mul_mod_noop_left(x.as_nat() * p, 2, m);
            assert((x.as_nat() * p) * 2 == x.as_nat() * (p * 2)) by (nonlinear_arith);
        }
        j += 1;
    }
    r
}

/// Shifts the word right by `shift` bits.
pub fn u256_shr(x: U256, shift: usize) -> (r: U256)
    requires
        shift <= 256,
    ensures
        r.as_nat() == x.as_nat() / vstd::arithmetic::power2::pow2(shift as nat),
{
    proof {
        vstd::arithmetic::power2::lemma2_to64();
    }
    let mut r = x;
    let mut j: usize = 0;
    while j < shift
        invariant
            j <= shift,
            r.as_nat() == x.as_nat() / vstd::arithmetic::power2::pow2(j as nat),
        decreases shift - j,
    {
        r = u256_shr1(r);
        proof {
            let p = vstd::arithmetic::power2::pow2(j as nat) as int;
            vstd::arithmetic::power2::lemma_pow2_adds(j as nat, 1);
            vstd::arithmetic::power2::lemma2_to64();
            vstd::arithmetic::power2::lemma_pow2_pos(j as nat);
            lemma_div_div(x.as_nat() as int, p, 2);
        }
        j += 1;
    }
    r
}

/// Shifts the word right by `shift` bits, keeping the sign.
pub fn u256_sar(x: U256, shift: usize) -> (r: U256)
    requires
        shift <= 256,
    ensures
        r.as_int() == x.as_int() / (vstd::arithmetic::power2::pow2(shift as nat) as int),
{
    proof {
        vstd::arithmetic::power2::lemma2_to64();
    }
    let mut r = x;
    let mut j: usize = 0;
    while j < shift
        invariant
            j <= shift,
            r.as_int() == x.as_int() / (vstd::arithmetic::power2::pow2(j as nat) as int),
        decreases shift - j,
    {
        r = u256_sar1(r);
        proof {
            let p = vstd::arithmetic::power2::pow2(j as nat) as int;
            vstd::arithmetic::power2::lemma_pow2_adds(j as nat, 1);
            vstd::arithmetic::power2::lemma2_to64();
            vstd::arithmetic::power2::lemma_pow2_pos(j as nat);
            lemma_div_div(x.as_int(), p, 2);
        }
        j += 1;
    }
    r
}

/// Reads the word stored little-endian at `b[from..from + 32]`.
pub fn u256_from_le_slice(b: &Vec<u8>, from: usize, to: usize) -> (r: U256)
    requires
        from + 32 == to,
        to <= b@.len(),
    ensures
        r == spec_u256_from_le_bytes(b@.subrange(from as int, to as int)),
{
    let sl = b.as_slice();
    let limb0 = vstd::bytes::u64_from_le_bytes(vstd::slice::slice_subrange(sl, from, from + 8));
    let limb1 = vstd::bytes::u64_from_le_bytes(
        vstd::slice::slice_subrange(sl, from + 8, from + 16),
    );
    let limb2 = vstd::bytes::u64_from_le_bytes(
        vstd::slice::slice_subrange(sl, from + 16, from + 24),
    );
    let limb3 = vstd::bytes::u64_from_le_bytes(
        vstd::slice::slice_subrange(sl, from + 24, from + 32),
    );
    proof {
        let w = b@.subrange(from as int, to as int);
        assert(w.subrange(0, 8) =~= b@.subrange(from as int, from + 8));
        assert(w.subrange(8, 16) =~= b@.subrange(from + 8, from + 16));
        assert(w.subrange(16, 24) =~= b@.subrange(from + 16, from + 24));
        assert(w.subrange(24, 32) =~= b@.subrange(from + 24, from + 32));
    }
    U256 { limb0, limb1, limb2, limb3 }
}

} // verus!
