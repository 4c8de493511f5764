//! Unsigned 256-bit integers as four 64-bit limbs, least significant first.
//!
//! Comparison, addition and subtraction go limb by limb and are proved here
//! against the natural number that a value stands for. Multiplication,
//! division and shifts are left to `ethers::types::U256`, which has the same
//! limb layout; what they do is taken on trust, as stated at each of them.

use vstd::arithmetic::power2::pow2;
use vstd::prelude::*;

verus! {

/// 2^64, the weight of the second limb.
pub open spec fn limb_base() -> nat {
    0x1_0000_0000_0000_0000
}

/// 2^256, one more than the largest value.
pub open spec fn modulus() -> nat {
    0x1_0000_0000_0000_0000_0000_0000_0000_0000_0000_0000_0000_0000_0000_0000_0000_0000nat
}

/// The number that four limbs stand for.
pub open spec fn limbs_value(w0: u64, w1: u64, w2: u64, w3: u64) -> nat {
    (w0 as nat) + (w1 as nat) * 0x1_0000_0000_0000_0000nat + (w2 as nat)
        * 0x1_0000_0000_0000_0000_0000_0000_0000_0000nat + (w3 as nat)
        * 0x1_0000_0000_0000_0000_0000_0000_0000_0000_0000_0000_0000_0000nat
}

/// An unsigned 256-bit integer. Every combination of limbs is a value.
#[derive(Clone, Copy, Debug, PartialEq, Eq, Structural, Hash)]
pub struct U256 {
    pub w0: u64,
    pub w1: u64,
    pub w2: u64,
    pub w3: u64,
}

impl View for U256 {
    type V = nat;

    open spec fn view(&self) -> nat {
        limbs_value(self.w0, self.w1, self.w2, self.w3)
    }
}

/// The value that stands for `n`, for `n` below 2^256.
pub open spec fn from_nat(n: nat) -> U256 {
    U256 {
        w0: (n % 0x1_0000_0000_0000_0000) as u64,
        w1: ((n / 0x1_0000_0000_0000_0000) % 0x1_0000_0000_0000_0000) as u64,
        w2: ((n / 0x1_0000_0000_0000_0000_0000_0000_0000_0000nat) % 0x1_0000_0000_0000_0000) as u64,
        w3: ((n / 0x1_0000_0000_0000_0000_0000_0000_0000_0000_0000_0000_0000_0000nat)
            % 0x1_0000_0000_0000_0000) as u64,
    }
}

/// A value is the one that stands for its number.
pub proof fn lemma_from_nat(x: U256)
    ensures
        from_nat(x@) == x,
{
    let b: int = 0x1_0000_0000_0000_0000;
    let n: int = x@ as int;
    let upper1: int = x.w1 as int + b * (x.w2 as int + b * (x.w3 as int));
    let upper2: int = x.w2 as int + b * (x.w3 as int);
    vstd::arithmetic::div_mod::lemma_fundamental_div_mod_converse(n, b, upper1, x.w0 as int);
    vstd::arithmetic::div_mod::lemma_fundamental_div_mod_converse(upper1, b, upper2, x.w1 as int);
    vstd::arithmetic::div_mod::lemma_fundamental_div_mod_converse(
        upper2,
        b,
        x.w3 as int,
        x.w2 as int,
    );
    vstd::arithmetic::div_mod::lemma_div_denominator(n, b, b);
    vstd::arithmetic::div_mod::lemma_div_denominator(n, b * b, b);
    vstd::arithmetic::div_mod::lemma_small_mod(x.w3 as nat, b as nat);
    assert(b * b == 0x1_0000_0000_0000_0000_0000_0000_0000_0000int);
    assert(b * b * b == 0x1_0000_0000_0000_0000_0000_0000_0000_0000_0000_0000_0000_0000int);
}

/// Two values that stand for the same number have the same limbs.
pub proof fn lemma_view_injective(a: U256, b: U256)
    ensures
        a@ < modulus(),
        (a@ == b@) <==> (a == b),
{
    if a@ == b@ {
        assert(a.w3 == b.w3);
        assert(a.w2 == b.w2);
        assert(a.w1 == b.w1);
    }
}

/// The powers of two at the limb boundaries.
pub proof fn lemma_pow2_limbs()
    ensures
        pow2(0) == 1,
        pow2(64) == limb_base(),
        pow2(128) == 0x1_0000_0000_0000_0000_0000_0000_0000_0000nat,
        pow2(192) == 0x1_0000_0000_0000_0000_0000_0000_0000_0000_0000_0000_0000_0000nat,
        pow2(256) == modulus(),
{
    vstd::arithmetic::power2::lemma2_to64();
    vstd::arithmetic::power2::lemma_pow2_adds(64, 64);
    vstd::arithmetic::power2::lemma_pow2_adds(128, 64);
    vstd::arithmetic::power2::lemma_pow2_adds(192, 64);
}

/// One limb of an addition: the low 64 bits of `a + b + carry`, and the carry out.
fn add_limbs(a: u64, b: u64, carry: bool) -> (r: (u64, bool))
    ensures
        r.0 + (if r.1 { limb_base() } else { 0 }) == a + b + (if carry { 1nat } else { 0 }),
{
    let c: u128 = if carry { 1 } else { 0 };
    let s: u128 = a as u128 + b as u128 + c;
    if s >= 0x1_0000_0000_0000_0000 {
        ((s - 0x1_0000_0000_0000_0000) as u64, true)
    } else {
        (s as u64, false)
    }
}

/// One limb of a subtraction: `a - b - borrow` modulo 2^64, and the borrow out.
fn sub_limbs(a: u64, b: u64, borrow: bool) -> (r: (u64, bool))
    ensures
        r.0 - (if r.1 { limb_base() as int } else { 0 }) == a - b - (if borrow { 1int } else { 0 }),
{
    let c: u128 = if borrow { 1 } else { 0 };
    let t: u128 = a as u128 + 0x1_0000_0000_0000_0000 - b as u128 - c;
    if t >= 0x1_0000_0000_0000_0000 {
        ((t - 0x1_0000_0000_0000_0000) as u64, false)
    } else {
        (t as u64, true)
    }
}

/// Calls `ethers::types::U256::overflowing_mul`. Taken on trust: the first
/// part of the result is the product reduced modulo 2^256, the second tells
/// whether the full product needed more than 256 bits.
#[verifier::external_body]
fn outside_overflowing_mul(a: &U256, b: &U256) -> (r: (U256, bool))
    ensures
        r.0@ == (a@ * b@) % modulus(),
        r.1 == (a@ * b@ >= modulus()),
{
    let x = ethers::types::U256([a.w0, a.w1, a.w2, a.w3]);
    let y = ethers::types::U256([b.w0, b.w1, b.w2, b.w3]);
    let (p, wrapped) = x.overflowing_mul(y);
    (U256 { w0: p.0[0], w1: p.0[1], w2: p.0[2], w3: p.0[3] }, wrapped)
}

/// Calls `ethers::types::U256::div_mod`, which panics on a zero divisor.
/// Taken on trust: it returns the quotient and the remainder of the division.
#[verifier::external_body]
fn outside_div_mod(a: &U256, b: &U256) -> (r: (U256, U256))
    requires
        b@ != 0,
    ensures
        r.0@ == a@ / b@,
        r.1@ == a@ % b@,
{
    let x = ethers::types::U256([a.w0, a.w1, a.w2, a.w3]);
    let y = ethers::types::U256([b.w0, b.w1, b.w2, b.w3]);
    let (q, m) = x.div_mod(y);
    (
        U256 { w0: q.0[0], w1: q.0[1], w2: q.0[2], w3: q.0[3] },
        U256 { w0: m.0[0], w1: m.0[1], w2: m.0[2], w3: m.0[3] },
    )
}

/// Calls the `<<` of `ethers::types::U256` with a `usize` shift. Taken on
/// trust: the result is the value times 2^bits, reduced modulo 2^256 (so
/// zero from 256 bits on).
#[verifier::external_body]
fn outside_shl(a: &U256, bits: usize) -> (r: U256)
    ensures
        r@ == (a@ * pow2(bits as nat)) % modulus(),
{
    let s = ethers::types::U256([a.w0, a.w1, a.w2, a.w3]) << bits;
    U256 { w0: s.0[0], w1: s.0[1], w2: s.0[2], w3: s.0[3] }
}

/// Calls the `>>` of `ethers::types::U256` with a `usize` shift. Taken on
/// trust: the result is the value divided by 2^bits, rounded down (so zero
/// from 256 bits on).
#[verifier::external_body]
fn outside_shr(a: &U256, bits: usize) -> (r: U256)
    ensures
        r@ == a@ / pow2(bits as nat),
{
    let s = ethers::types::U256([a.w0, a.w1, a.w2, a.w3]) >> bits;
    U256 { w0: s.0[0], w1: s.0[1], w2: s.0[2], w3: s.0[3] }
}

impl U256 {
    pub fn zero() -> (r: U256)
        ensures
            r@ == 0,
    {
        U256 { w0: 0, w1: 0, w2: 0, w3: 0 }
    }

    pub fn one() -> (r: U256)
        ensures
            r@ == 1,
    {
        U256 { w0: 1, w1: 0, w2: 0, w3: 0 }
    }

    pub fn max_value() -> (r: U256)
        ensures
            r@ == modulus() - 1,
    {
        U256 {
            w0: 0xffff_ffff_ffff_ffff,
            w1: 0xffff_ffff_ffff_ffff,
            w2: 0xffff_ffff_ffff_ffff,
            w3: 0xffff_ffff_ffff_ffff,
        }
    }

    pub fn from_u64(v: u64) -> (r: U256)
        ensures
            r@ == v,
    {
        U256 { w0: v, w1: 0, w2: 0, w3: 0 }
    }

    pub fn from_u128(v: u128) -> (r: U256)
        ensures
            r@ == v,
    {
        let lo: u64 = (v % 0x1_0000_0000_0000_0000) as u64;
        let hi: u64 = (v / 0x1_0000_0000_0000_0000) as u64;
        U256 { w0: lo, w1: hi, w2: 0, w3: 0 }
    }

    /// The value as a `u128`, where it fits.
    pub fn to_u128(&self) -> (r: Option<u128>)
        ensures
            match r {
                Some(v) => v == self@,
                None => self@ > u128::MAX,
            },
    {
        if self.w2 == 0 && self.w3 == 0 {
            let hi: u128 = self.w1 as u128;
            Some(hi * 0x1_0000_0000_0000_0000 + self.w0 as u128)
        } else {
            None
        }
    }

    pub fn is_zero(&self) -> (r: bool)
        ensures
            r == (self@ == 0),
    {
        self.w0 == 0 && self.w1 == 0 && self.w2 == 0 && self.w3 == 0
    }

    pub fn lt(&self, other: &U256) -> (r: bool)
        ensures
            r == (self@ < other@),
    {
        if self.w3 != other.w3 {
            self.w3 < other.w3
        } else if self.w2 != other.w2 {
            self.w2 < other.w2
        } else if self.w1 != other.w1 {
            self.w1 < other.w1
        } else {
            self.w0 < other.w0
        }
    }

    pub fn le(&self, other: &U256) -> (r: bool)
        ensures
            r == (self@ <= other@),
    {
        !other.lt(self)
    }

    /// Addition modulo 2^256, with a flag that tells whether the sum wrapped.
    pub fn overflowing_add(&self, other: &U256) -> (r: (U256, bool))
        ensures
            r.0@ == (self@ + other@) % modulus(),
            r.1 == (self@ + other@ >= modulus()),
            r.0@ + (if r.1 { modulus() } else { 0 }) == self@ + other@,
    {
        let (w0, c0) = add_limbs(self.w0, other.w0, false);
        let (w1, c1) = add_limbs(self.w1, other.w1, c0);
        let (w2, c2) = add_limbs(self.w2, other.w2, c1);
        let (w3, c3) = add_limbs(self.w3, other.w3, c2);
        let sum = U256 { w0, w1, w2, w3 };
        proof {
            lemma_view_injective(sum, sum);
            let total: int = (self@ + other@) as int;
            if c3 {
                assert(total == 1 * modulus() + sum@);
                vstd::arithmetic::div_mod::lemma_fundamental_div_mod_converse(
                    total,
                    modulus() as int,
                    1,
                    sum@ as int,
                );
            } else {
                vstd::arithmetic::div_mod::lemma_small_mod(sum@, modulus());
            }
        }
        (sum, c3)
    }

    /// The sum, unless it does not fit.
    pub fn checked_add(&self, other: &U256) -> (r: Option<U256>)
        ensures
            match r {
                Some(v) => v@ == self@ + other@,
                None => self@ + other@ >= modulus(),
            },
    {
        let (sum, wrapped) = self.overflowing_add(other);
        if wrapped {
            None
        } else {
            Some(sum)
        }
    }

    /// Subtraction modulo 2^256, with a flag that tells whether it borrowed.
    pub fn overflowing_sub(&self, other: &U256) -> (r: (U256, bool))
        ensures
            r.1 == (self@ < other@),
            r.0@ == self@ - other@ + (if r.1 { modulus() as int } else { 0 }),
    {
        let (w0, b0) = sub_limbs(self.w0, other.w0, false);
        let (w1, b1) = sub_limbs(self.w1, other.w1, b0);
        let (w2, b2) = sub_limbs(self.w2, other.w2, b1);
        let (w3, b3) = sub_limbs(self.w3, other.w3, b2);
        let diff = U256 { w0, w1, w2, w3 };
        proof {
            lemma_view_injective(diff, diff);
        }
        (diff, b3)
    }

    /// The difference, unless `other` is the larger.
    pub fn checked_sub(&self, other: &U256) -> (r: Option<U256>)
        ensures
            match r {
                Some(v) => v@ == self@ - other@,
                None => self@ < other@,
            },
    {
        let (diff, borrowed) = self.overflowing_sub(other);
        if borrowed {
            None
        } else {
            Some(diff)
        }
    }

    /// The difference, or zero where `other` is the larger.
    pub fn saturating_sub(&self, other: &U256) -> (r: U256)
        ensures
            r@ == if self@ >= other@ { self@ - other@ } else { 0 },
    {
        match self.checked_sub(other) {
            Some(diff) => diff,
            None => U256::zero(),
        }
    }

    /// Multiplication modulo 2^256, with a flag that tells whether the product wrapped.
    pub fn overflowing_mul(&self, other: &U256) -> (r: (U256, bool))
        ensures
            r.0@ == (self@ * other@) % modulus(),
            r.1 == (self@ * other@ >= modulus()),
    {
        outside_overflowing_mul(self, other)
    }

    /// The product, unless it does not fit.
    pub fn checked_mul(&self, other: &U256) -> (r: Option<U256>)
        ensures
            match r {
                Some(v) => v@ == self@ * other@,
                None => self@ * other@ >= modulus(),
            },
    {
        let (product, wrapped) = outside_overflowing_mul(self, other);
        if wrapped {
            None
        } else {
            proof {
                vstd::arithmetic::div_mod::lemma_small_mod(self@ * other@, modulus());
            }
            Some(product)
        }
    }

    /// Quotient and remainder of a division by a non-zero value.
    pub fn div_rem(&self, divisor: &U256) -> (r: (U256, U256))
        requires
            divisor@ != 0,
        ensures
            r.0@ == self@ / divisor@,
            r.1@ == self@ % divisor@,
    {
        outside_div_mod(self, divisor)
    }

    /// The quotient, or `None` for a division by zero.
    pub fn checked_div(&self, divisor: &U256) -> (r: Option<U256>)
        ensures
            match r {
                Some(v) => divisor@ != 0 && v@ == self@ / divisor@,
                None => divisor@ == 0,
            },
    {
        if divisor.is_zero() {
            None
        } else {
            Some(outside_div_mod(self, divisor).0)
        }
    }

    /// Shift towards the most significant bit; bits that leave the top are lost.
    pub fn shl(&self, bits: usize) -> (r: U256)
        ensures
            r@ == (self@ * pow2(bits as nat)) % modulus(),
    {
        outside_shl(self, bits)
    }

    /// Shift towards the least significant bit.
    pub fn shr(&self, bits: usize) -> (r: U256)
        ensures
            r@ == self@ / pow2(bits as nat),
    {
        outside_shr(self, bits)
    }
}

} // verus!
