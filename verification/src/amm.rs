//! Constant-product arithmetic for a pool that keeps 0.3% of what comes in.

use crate::uint::{lemma_pow2_limbs, modulus, U256};
use vstd::arithmetic::power2::pow2;
use vstd::prelude::*;

verus! {

/// What a constant-product pool pays out: with `num = 997·a_in·R_out` and
/// `den = 1000·R_in + 997·a_in`, the quotient `num / den` rounded down, and
/// zero where `den` is zero.
pub open spec fn v2_amount_out_spec(amount_in: nat, reserve_in: nat, reserve_out: nat) -> nat {
    let den = 1000 * reserve_in + 997 * amount_in;
    if den == 0 {
        0
    } else {
        (997 * amount_in * reserve_out) / den
    }
}

/// Whether the formula can be worked out in 256 bits step by step: the
/// input with the fee, the numerator and the denominator all fit.
pub open spec fn fits_checked(amount_in: nat, reserve_in: nat, reserve_out: nat) -> bool {
    &&& 997 * amount_in < modulus()
    &&& 997 * amount_in * reserve_out < modulus()
    &&& 1000 * reserve_in + 997 * amount_in < modulus()
}

/// A number of up to 320 bits: `hi · 2^256 + lo`.
struct Wide {
    hi: u64,
    lo: U256,
}

impl Wide {
    spec fn value(self) -> nat {
        self.hi as nat * modulus() + self.lo@
    }

    /// The full product of a 256-bit value and a 64-bit factor.
    fn product(a: &U256, k: u64) -> (r: Wide)
        ensures
            r.value() == a@ * k,
    {
        let (w0, c0) = mul_limb(a.w0, k, 0);
        let (w1, c1) = mul_limb(a.w1, k, c0);
        let (w2, c2) = mul_limb(a.w2, k, c1);
        let (w3, c3) = mul_limb(a.w3, k, c2);
        proof {
            lemma_limbs_times(a.w0 as nat, a.w1 as nat, a.w2 as nat, a.w3 as nat, k as nat);
        }
        Wide { hi: c3, lo: U256 { w0, w1, w2, w3 } }
    }

    fn sum(&self, other: &Wide) -> (r: Wide)
        requires
            self.hi + other.hi < u64::MAX,
        ensures
            r.value() == self.value() + other.value(),
    {
        let (lo, carry) = self.lo.overflowing_add(&other.lo);
        let c: u64 = if carry { 1 } else { 0 };
        Wide { hi: self.hi + other.hi + c, lo }
    }

    fn difference(&self, other: &Wide) -> (r: Wide)
        requires
            other.value() <= self.value(),
        ensures
            r.value() == self.value() - other.value(),
    {
        let (lo, borrow) = self.lo.overflowing_sub(&other.lo);
        let b: u64 = if borrow { 1 } else { 0 };
        proof {
            crate::uint::lemma_view_injective(self.lo, other.lo);
            crate::uint::lemma_view_injective(other.lo, self.lo);
        }
        Wide { hi: self.hi - other.hi - b, lo }
    }

    fn at_most(&self, other: &Wide) -> (r: bool)
        ensures
            r == (self.value() <= other.value()),
    {
        proof {
            crate::uint::lemma_view_injective(self.lo, other.lo);
            crate::uint::lemma_view_injective(other.lo, self.lo);
        }
        if self.hi != other.hi {
            self.hi < other.hi
        } else {
            self.lo.le(&other.lo)
        }
    }
}

/// One limb of a multiplication by a 64-bit factor: the low 64 bits of
/// `a · k + carry`, and what goes on to the next limb.
fn mul_limb(a: u64, k: u64, carry: u64) -> (r: (u64, u64))
    ensures
        r.0 + r.1 * 0x1_0000_0000_0000_0000 == a * k + carry,
{
    assert(a * k <= 0xffff_ffff_ffff_ffff * 0xffff_ffff_ffff_ffff) by (nonlinear_arith)
        requires
            a <= 0xffff_ffff_ffff_ffff,
            k <= 0xffff_ffff_ffff_ffff,
    ;
    let p: u128 = a as u128 * k as u128 + carry as u128;
    ((p % 0x1_0000_0000_0000_0000) as u64, (p / 0x1_0000_0000_0000_0000) as u64)
}

/// Multiplying a number of four limbs multiplies each limb.
proof fn lemma_limbs_times(x0: nat, x1: nat, x2: nat, x3: nat, k: nat)
    by (nonlinear_arith)
    ensures
        (x0 + x1 * 0x1_0000_0000_0000_0000nat + x2 * 0x1_0000_0000_0000_0000_0000_0000_0000_0000nat
            + x3 * 0x1_0000_0000_0000_0000_0000_0000_0000_0000_0000_0000_0000_0000nat) * k == x0 * k
            + (x1 * k) * 0x1_0000_0000_0000_0000nat + (x2 * k)
            * 0x1_0000_0000_0000_0000_0000_0000_0000_0000nat + (x3 * k)
            * 0x1_0000_0000_0000_0000_0000_0000_0000_0000_0000_0000_0000_0000nat,
{
}

/// What the pool pays out for `amount_in`, for every input: the formula is
/// evaluated exactly, also where an intermediate product needs more than 256
/// bits.
pub fn v2_amount_out(amount_in: &U256, reserve_in: &U256, reserve_out: &U256) -> (out: U256)
    ensures
        out@ == v2_amount_out_spec(amount_in@, reserve_in@, reserve_out@),
{
    match amount_out_checked(amount_in, reserve_in, reserve_out) {
        Some(out) => out,
        None => amount_out_wide(amount_in, reserve_in, reserve_out),
    }
}

/// The formula in 256-bit checked arithmetic: the amount where the input
/// with the fee, the numerator and the denominator all fit in 256 bits, and
/// `None` where one of them does not.
fn amount_out_checked(amount_in: &U256, reserve_in: &U256, reserve_out: &U256) -> (r: Option<U256>)
    ensures
        r is Some <==> fits_checked(amount_in@, reserve_in@, reserve_out@),
        r matches Some(out) ==> out@ == v2_amount_out_spec(amount_in@, reserve_in@, reserve_out@),
{
    let in_with_fee = match amount_in.checked_mul(&U256::from_u64(997)) {
        Some(product) => product,
        None => {
            return None;
        },
    };
    assert(in_with_fee@ == 997 * amount_in@);
    let numerator = match in_with_fee.checked_mul(reserve_out) {
        Some(product) => product,
        None => {
            return None;
        },
    };
    assert(numerator@ == 997 * amount_in@ * reserve_out@);
    let scaled_reserve = match reserve_in.checked_mul(&U256::from_u64(1000)) {
        Some(product) => product,
        None => {
            return None;
        },
    };
    let denominator = match scaled_reserve.checked_add(&in_with_fee) {
        Some(sum) => sum,
        None => {
            return None;
        },
    };
    assert(denominator@ == 1000 * reserve_in@ + 997 * amount_in@);
    match numerator.checked_div(&denominator) {
        Some(out) => Some(out),
        None => Some(U256::zero()),
    }
}

/// The formula for inputs of any size: the quotient is built bit by bit from
/// the bits of `reserve_out`, most significant first, so that nothing larger
/// than three times the denominator is ever held.
fn amount_out_wide(amount_in: &U256, reserve_in: &U256, reserve_out: &U256) -> (out: U256)
    ensures
        out@ == v2_amount_out_spec(amount_in@, reserve_in@, reserve_out@),
{
    let in_with_fee = Wide::product(amount_in, 997);
    let scaled_reserve = Wide::product(reserve_in, 1000);
    proof {
        lemma_product_hi_bound(in_with_fee.hi as nat, in_with_fee.lo@, amount_in@, 997);
        lemma_product_hi_bound(scaled_reserve.hi as nat, scaled_reserve.lo@, reserve_in@, 1000);
    }
    let denominator = scaled_reserve.sum(&in_with_fee);
    if denominator.hi == 0 && denominator.lo.is_zero() {
        return U256::zero();
    }
    let ghost a: nat = in_with_fee.value();
    let ghost d: nat = denominator.value();
    let mut quotient = U256::zero();
    let mut remainder = Wide { hi: 0, lo: U256::zero() };
    let mut rest = *reserve_out;
    let mut i: u32 = 0;
    let ghost mut prefix: nat = 0;
    proof {
        lemma_pow2_limbs();
    }
    while i < 256
        invariant
            i <= 256,
            a == in_with_fee.value(),
            d == denominator.value(),
            a <= d,
            0 < d,
            denominator.hi < 2000,
            in_with_fee.hi < 1000,
            prefix * modulus() + rest@ == reserve_out@ * pow2(i as nat),
            prefix < pow2(i as nat),
            a * prefix == quotient@ * d + remainder.value(),
            remainder.value() < d,
        decreases 256 - i,
    {
        let (doubled_rest, bit) = rest.overflowing_add(&rest);
        proof {
            lemma_pow2_limbs();
            vstd::arithmetic::power2::lemma_pow2_unfold((i + 1) as nat);
            assert(reserve_out@ * (2 * pow2(i as nat)) == 2 * (reserve_out@ * pow2(i as nat)))
                by (nonlinear_arith);
            if i + 1 < 256 {
                vstd::arithmetic::power2::lemma_pow2_strictly_increases((i + 1) as nat, 256);
            }
        }
        let (next_quotient, next_remainder) = divide_step(
            &quotient,
            &remainder,
            bit,
            &in_with_fee,
            &denominator,
            Ghost(prefix),
        );
        proof {
            prefix = 2 * prefix + (if bit { 1nat } else { 0 });
        }
        quotient = next_quotient;
        remainder = next_remainder;
        rest = doubled_rest;
        i = i + 1;
    }
    proof {
        assert(prefix == reserve_out@) by {
            crate::uint::lemma_view_injective(rest, rest);
            assert(prefix * modulus() + rest@ == reserve_out@ * modulus());
            lemma_same_multiple(prefix, rest@, reserve_out@, modulus());
        }
        assert(997 * amount_in@ * reserve_out@ == a * reserve_out@) by (nonlinear_arith)
            requires
                a == amount_in@ * 997,
        ;
        vstd::arithmetic::div_mod::lemma_fundamental_div_mod_converse(
            (a * prefix) as int,
            d as int,
            quotient@ as int,
            remainder.value() as int,
        );
    }
    quotient
}

/// One step of the bit-by-bit division. Before it, `quotient` and `remainder`
/// divide `multiplicand · prefix` by `divisor`; after it they divide
/// `multiplicand · (2 · prefix + bit)`.
fn divide_step(
    quotient: &U256,
    remainder: &Wide,
    bit: bool,
    multiplicand: &Wide,
    divisor: &Wide,
    Ghost(prefix): Ghost<nat>,
) -> (r: (U256, Wide))
    requires
        multiplicand.value() <= divisor.value(),
        0 < divisor.value(),
        divisor.hi < 2000,
        multiplicand.hi < 1000,
        multiplicand.value() * prefix == quotient@ * divisor.value() + remainder.value(),
        remainder.value() < divisor.value(),
        2 * prefix + 1 < modulus(),
    ensures
        multiplicand.value() * (2 * prefix + (if bit { 1nat } else { 0 })) == r.0@ * divisor.value()
            + r.1.value(),
        r.1.value() < divisor.value(),
{
    let ghost a: nat = multiplicand.value();
    let ghost d: nat = divisor.value();
    let ghost b: nat = if bit { 1 } else { 0 };
    proof {
        crate::uint::lemma_view_injective(remainder.lo, divisor.lo);
        crate::uint::lemma_view_injective(divisor.lo, remainder.lo);
        lemma_step_bounds(remainder.hi as nat, remainder.lo@, divisor.hi as nat, divisor.lo@);
        assert(b * a == if bit { a } else { 0 }) by (nonlinear_arith)
            requires
                b == if bit { 1nat } else { 0 },
        ;
    }
    let mut t = remainder.sum(remainder);
    if bit {
        proof {
            assert(t.hi <= 2 * divisor.hi + 1);
        }
        t = t.sum(multiplicand);
    }
    assert(t.value() == 2 * remainder.value() + b * a);
    let mut digit: u64 = 0;
    if divisor.at_most(&t) {
        t = t.difference(divisor);
        digit = 1;
        if divisor.at_most(&t) {
            t = t.difference(divisor);
            digit = 2;
        }
    }
    proof {
        assert(digit * d == if digit == 0 { 0 } else if digit == 1 { d } else { 2 * d })
            by (nonlinear_arith)
            requires
                digit <= 2,
        ;
        assert(t.value() + digit * d == 2 * remainder.value() + b * a);
        lemma_quotient_step(a, d, prefix, quotient@, remainder.value(), b, digit as nat, t.value());
        lemma_quotient_bound(a, d, 2 * prefix + b, 2 * quotient@ + digit as nat, t.value());
        vstd::arithmetic::div_mod::lemma_small_mod(2 * quotient@, modulus());
        vstd::arithmetic::div_mod::lemma_small_mod(2 * quotient@ + digit as nat, modulus());
    }
    let (twice, _) = quotient.overflowing_add(quotient);
    let (next_quotient, _) = twice.overflowing_add(&U256::from_u64(digit));
    (next_quotient, t)
}

/// The part of a product `x · k` above 256 bits is less than `k`.
proof fn lemma_product_hi_bound(hi: nat, lo: nat, x: nat, k: nat)
    requires
        hi * modulus() + lo == x * k,
        x < modulus(),
    ensures
        hi < k || k == 0,
{
    if k > 0 && hi >= k {
        assert(hi * modulus() >= k * modulus()) by (nonlinear_arith)
            requires
                hi >= k,
        ;
        assert(x * k < modulus() * k) by (nonlinear_arith)
            requires
                x < modulus(),
                k > 0,
        ;
        assert(k * modulus() == modulus() * k) by (nonlinear_arith);
    }
}

/// Of two wide numbers the smaller has no larger upper part.
proof fn lemma_step_bounds(rh: nat, rl: nat, dh: nat, dl: nat)
    requires
        rh * modulus() + rl < dh * modulus() + dl,
        dl < modulus(),
    ensures
        rh <= dh,
{
    if rh > dh {
        assert(rh * modulus() >= (dh + 1) * modulus()) by (nonlinear_arith)
            requires
                rh >= dh + 1,
        ;
        assert((dh + 1) * modulus() == dh * modulus() + modulus()) by (nonlinear_arith);
    }
}

/// One step of the bit-by-bit division: taking in one more bit of the
/// multiplier doubles quotient and remainder and adds what the bit brings.
proof fn lemma_quotient_step(a: nat, d: nat, prefix: nat, q: nat, r: nat, bit: nat, digit: nat, t: nat)
    requires
        a * prefix == q * d + r,
        t + digit * d == 2 * r + bit * a,
    ensures
        a * (2 * prefix + bit) == (2 * q + digit) * d + t,
{
    assert(a * (2 * prefix + bit) == 2 * (a * prefix) + bit * a) by (nonlinear_arith);
    assert((2 * q + digit) * d == 2 * (q * d) + digit * d) by (nonlinear_arith);
}

/// Dividing by at least as much as one multiplies by gives at most what
/// one started from.
proof fn lemma_quotient_bound(a: nat, d: nat, prefix: nat, q: nat, r: nat)
    requires
        a * prefix == q * d + r,
        a <= d,
        0 < d,
    ensures
        q <= prefix,
{
    if q > prefix {
        assert(q * d >= (prefix + 1) * d) by (nonlinear_arith)
            requires
                q >= prefix + 1,
        ;
        assert((prefix + 1) * d == prefix * d + d) by (nonlinear_arith);
        assert(a * prefix <= d * prefix) by (nonlinear_arith)
            requires
                a <= d,
        ;
        assert(d * prefix == prefix * d) by (nonlinear_arith);
    }
}

/// A multiple of `m` plus less than `m` is a multiple of `m` only if
/// nothing was added.
proof fn lemma_same_multiple(p: nat, rest: nat, x: nat, m: nat)
    requires
        p * m + rest == x * m,
        rest < m,
    ensures
        p == x,
        rest == 0,
{
    if p < x {
        assert(x * m >= (p + 1) * m) by (nonlinear_arith)
            requires
                x >= p + 1,
        ;
        assert((p + 1) * m == p * m + m) by (nonlinear_arith);
    } else if p > x {
        assert(p * m >= (x + 1) * m) by (nonlinear_arith)
            requires
                p >= x + 1,
        ;
        assert((x + 1) * m == x * m + m) by (nonlinear_arith);
    }
}


/// A pool with something on both sides never pays out its whole reserve.
pub proof fn lemma_amount_out_below_reserve(amount_in: nat, reserve_in: nat, reserve_out: nat)
    requires
        reserve_in > 0,
        reserve_out > 0,
    ensures
        v2_amount_out_spec(amount_in, reserve_in, reserve_out) < reserve_out,
{
    let num = 997 * amount_in * reserve_out;
    let den = 1000 * reserve_in + 997 * amount_in;
    assert(num < den * reserve_out) by (nonlinear_arith)
        requires
            num == 997 * amount_in * reserve_out,
            den == 1000 * reserve_in + 997 * amount_in,
            reserve_in > 0,
            reserve_out > 0,
    ;
    vstd::arithmetic::div_mod::lemma_multiply_divide_lt(num as int, den as int, reserve_out as int);
}

/// Putting more in never gets less out.
pub proof fn lemma_amount_out_monotone(smaller: nat, larger: nat, reserve_in: nat, reserve_out: nat)
    requires
        smaller <= larger,
    ensures
        v2_amount_out_spec(smaller, reserve_in, reserve_out) <= v2_amount_out_spec(
            larger,
            reserve_in,
            reserve_out,
        ),
{
    let n1 = 997 * smaller * reserve_out;
    let d1 = 1000 * reserve_in + 997 * smaller;
    let n2 = 997 * larger * reserve_out;
    let d2 = 1000 * reserve_in + 997 * larger;
    if d1 > 0 {
        assert(n1 * d2 <= n2 * d1) by (nonlinear_arith)
            requires
                n1 == 997 * smaller * reserve_out,
                d1 == 1000 * reserve_in + 997 * smaller,
                n2 == 997 * larger * reserve_out,
                d2 == 1000 * reserve_in + 997 * larger,
                smaller <= larger,
        ;
        lemma_fraction_order(n1, d1, n2, d2);
    }
}

/// Nothing in, nothing out.
pub proof fn lemma_amount_out_of_nothing(reserve_in: nat, reserve_out: nat)
    ensures
        v2_amount_out_spec(0, reserve_in, reserve_out) == 0,
{
    assert(997 * 0 * reserve_out == 0) by (nonlinear_arith);
    if reserve_in > 0 {
        vstd::arithmetic::div_mod::lemma_basic_div(0, (1000 * reserve_in) as int);
    }
}

/// Rounding down keeps the order of two fractions.
proof fn lemma_fraction_order(n1: nat, d1: nat, n2: nat, d2: nat)
    requires
        d1 > 0,
        d2 > 0,
        n1 * d2 <= n2 * d1,
    ensures
        n1 / d1 <= n2 / d2,
{
    let q1 = n1 / d1;
    let q2 = n2 / d2;
    vstd::arithmetic::div_mod::lemma_fundamental_div_mod(n1 as int, d1 as int);
    vstd::arithmetic::div_mod::lemma_fundamental_div_mod(n2 as int, d2 as int);
    vstd::arithmetic::div_mod::lemma_mod_bound(n1 as int, d1 as int);
    vstd::arithmetic::div_mod::lemma_mod_bound(n2 as int, d2 as int);
    if q1 > q2 {
        let r2 = n2 % d2;
        assert(n1 * d2 > n2 * d1) by (nonlinear_arith)
            requires
                n1 >= d1 * q1,
                n2 == d2 * q2 + r2,
                r2 < d2,
                q1 >= q2 + 1,
                d1 > 0,
                d2 > 0,
        ;
    }
}

} // verus!
