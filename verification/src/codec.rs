//! The two compact amount encodings of the sandwich contract's calldata.
//!
//! Both lose precision on purpose. What the contract will actually trade is
//! the decoded value, so callers carry `decode(encode(x))` forward, never `x`.

use crate::uint::{lemma_pow2_limbs, lemma_view_injective, modulus, U256};
use vstd::arithmetic::power2::pow2;
use vstd::prelude::*;

verus! {

/// The contract takes base-asset amounts in units of this many wei.
pub const WETH_ENCODE_DIVISOR: u64 = 100_000;

/// A base-asset amount in the contract's units, rounded down.
pub open spec fn weth_encode_spec(value: nat) -> nat {
    value / (WETH_ENCODE_DIVISOR as nat)
}

/// The amount in wei that an encoded base-asset amount stands for.
pub open spec fn weth_decode_spec(encoded: nat) -> nat {
    encoded * (WETH_ENCODE_DIVISOR as nat)
}

/// Encoding of base-asset amounts.
pub struct WethEncoder {}

impl WethEncoder {
    pub fn encode(value: &U256) -> (encoded: U256)
        ensures
            encoded@ == weth_encode_spec(value@),
    {
        value.div_rem(&U256::from_u64(WETH_ENCODE_DIVISOR)).0
    }

    /// The amount in wei, reduced modulo 2^256 where it would not fit (it
    /// always fits for what `encode` returns).
    pub fn decode(encoded: &U256) -> (value: U256)
        ensures
            value@ == weth_decode_spec(encoded@) % modulus(),
    {
        encoded.overflowing_mul(&U256::from_u64(WETH_ENCODE_DIVISOR)).0
    }

    /// `decode(encode(value))`: the amount the contract will really take.
    pub fn round_trip(value: &U256) -> (actual: U256)
        ensures
            actual@ == weth_decode_spec(weth_encode_spec(value@)),
            actual@ <= value@,
            value@ - actual@ < WETH_ENCODE_DIVISOR,
    {
        proof {
            lemma_weth_round_trip(value@);
            lemma_view_injective(*value, *value);
            vstd::arithmetic::div_mod::lemma_small_mod(
                weth_decode_spec(weth_encode_spec(value@)),
                modulus(),
            );
        }
        WethEncoder::decode(&WethEncoder::encode(value))
    }
}

/// Encoding and decoding a base-asset amount gives back at most the amount,
/// and loses less than one unit of the encoding.
pub proof fn lemma_weth_round_trip(value: nat)
    ensures
        weth_decode_spec(weth_encode_spec(value)) <= value,
        value - weth_decode_spec(weth_encode_spec(value)) < WETH_ENCODE_DIVISOR,
{
    vstd::arithmetic::div_mod::lemma_fundamental_div_mod(value as int, WETH_ENCODE_DIVISOR as int);
    vstd::arithmetic::div_mod::lemma_mod_bound(value as int, WETH_ENCODE_DIVISOR as int);
}

/// The weight of the mantissa's lowest bit at an exponent: 2^(8·exponent).
pub open spec fn ulp(exponent: nat) -> nat {
    pow2(8 * exponent)
}

/// Whether `amount`, shifted down by `exponent` bytes, fits in four bytes.
pub open spec fn fits_four_bytes(amount: nat, exponent: nat) -> bool {
    amount / ulp(exponent) < 0x1_0000_0000
}

/// The exponent at which `amount` is encoded when at least `min_exp` is
/// asked for: the first one from `min_exp` on at which it fits in four bytes.
pub open spec fn five_byte_exponent(amount: nat, min_exp: nat) -> nat
    decreases 28 - min_exp,
{
    if min_exp >= 28 || fits_four_bytes(amount, min_exp) {
        min_exp
    } else {
        five_byte_exponent(amount, min_exp + 1)
    }
}

/// The amount that comes out of encoding `amount` with an exponent of at
/// least `min_exp` and decoding it again, after taking `dust` units off the
/// mantissa as far as it has them.
pub open spec fn five_byte_round_trip(amount: nat, min_exp: nat, dust: nat) -> nat {
    let exponent = five_byte_exponent(amount, min_exp);
    let mantissa = amount / ulp(exponent);
    if mantissa >= dust {
        ((mantissa - dust) * ulp(exponent)) as nat
    } else {
        0
    }
}

/// A token amount as a four-byte mantissa and a one-byte exponent; it stands
/// for `mantissa << (8 · exponent)`.
#[derive(Clone, Copy, Debug, PartialEq, Eq, Structural)]
pub struct FiveByteMetaData {
    mantissa: u32,
    exponent: u8,
}

impl FiveByteMetaData {
    pub closed spec fn spec_mantissa(self) -> nat {
        self.mantissa as nat
    }

    pub closed spec fn spec_exponent(self) -> nat {
        self.exponent as nat
    }

    /// The amount this encoding stands for.
    pub open spec fn value(self) -> nat {
        (self.spec_mantissa() * ulp(self.spec_exponent())) % modulus()
    }

    /// Whether this is the encoding of `amount` with an exponent of at least
    /// `min_exp`: the exponent is the least one from `min_exp` on at which
    /// the amount fits in four bytes, and the mantissa is the amount shifted
    /// down, rounded down.
    pub open spec fn encodes(self, amount: nat, min_exp: u8) -> bool {
        &&& self.spec_exponent() >= min_exp
        &&& self.spec_exponent() <= 255
        &&& self.spec_mantissa() < 0x1_0000_0000
        &&& self.spec_mantissa() == amount / ulp(self.spec_exponent())
        &&& forall|e: nat| min_exp <= e < self.spec_exponent() ==> !fits_four_bytes(amount, e)
    }

    pub fn mantissa(&self) -> (m: u32)
        ensures
            m == self.spec_mantissa(),
    {
        self.mantissa
    }

    pub fn exponent(&self) -> (e: u8)
        ensures
            e == self.spec_exponent(),
    {
        self.exponent
    }

    pub fn encode(amount: &U256, min_exp: u8) -> (meta: FiveByteMetaData)
        ensures
            meta.encodes(amount@, min_exp),
            meta.value() <= amount@,
            amount@ - meta.value() < ulp(meta.spec_exponent()),
    {
        let mut exponent: u8 = min_exp;
        let mut shifted = amount.shr(8 * (exponent as usize));
        let limit = U256::from_u64(0x1_0000_0000);
        proof {
            lemma_view_injective(*amount, *amount);
        }
        while !shifted.lt(&limit)
            invariant
                min_exp <= exponent,
                amount@ < modulus(),
                limit@ == 0x1_0000_0000,
                shifted@ == amount@ / ulp(exponent as nat),
                forall|e: nat| min_exp <= e < exponent ==> !fits_four_bytes(amount@, e),
            decreases 255 - exponent,
        {
            proof {
                if exponent >= 28 {
                    lemma_fits_from_top(amount@, exponent as nat);
                }
            }
            exponent = exponent + 1;
            shifted = amount.shr(8 * (exponent as usize));
        }
        proof {
            lemma_view_injective(shifted, shifted);
        }
        let meta = FiveByteMetaData { mantissa: shifted.w0 as u32, exponent };
        proof {
            lemma_five_byte_round_trip(meta, amount@, min_exp);
        }
        meta
    }

    pub fn decode(&self) -> (amount: U256)
        ensures
            amount@ == self.value(),
    {
        U256::from_u64(self.mantissa as u64).shl(8 * (self.exponent as usize))
    }

    /// What the contract will take of `amount`: the amount encoded with an
    /// exponent of at least `min_exp` and decoded again, one unit of the
    /// mantissa short where `keep_dust` is set.
    pub fn round_trip(amount: &U256, min_exp: u8, keep_dust: bool) -> (actual: U256)
        ensures
            actual@ == five_byte_round_trip(
                amount@,
                min_exp as nat,
                if keep_dust {
                    1
                } else {
                    0
                },
            ),
            actual@ <= amount@,
    {
        let mut meta = FiveByteMetaData::encode(amount, min_exp);
        let ghost encoded = meta;
        proof {
            lemma_view_injective(*amount, *amount);
            lemma_encoded_exponent(meta, amount@, min_exp);
            lemma_five_byte_round_trip(meta, amount@, min_exp);
        }
        if keep_dust {
            meta.decrement_four_bytes();
            proof {
                if encoded.spec_mantissa() > 0 {
                    lemma_decrement_leaves_dust(encoded, meta, amount@, min_exp);
                    let unit = ulp(encoded.spec_exponent());
                    assert(meta.value() == (encoded.spec_mantissa() - 1) * unit) by {
                        assert((encoded.spec_mantissa() - 1) * unit + unit
                            == encoded.spec_mantissa() * unit) by (nonlinear_arith);
                    }
                } else {
                    assert(meta.value() == 0) by {
                        assert(0 * ulp(meta.spec_exponent()) == 0) by (nonlinear_arith);
                        lemma_pow2_limbs();
                    }
                }
            }
        }
        meta.decode()
    }

    /// Takes one off the mantissa, so that the decoded amount leaves a
    /// little dust behind. A mantissa of zero stays zero.
    pub fn decrement_four_bytes(&mut self)
        ensures
            final(self).spec_exponent() == old(self).spec_exponent(),
            final(self).spec_mantissa() == if old(self).spec_mantissa() > 0 {
                (old(self).spec_mantissa() - 1) as nat
            } else {
                0
            },
    {
        if self.mantissa > 0 {
            self.mantissa = self.mantissa - 1;
        }
    }
}

/// The exponent of an encoding is the first one at which the amount fits.
pub proof fn lemma_encoded_exponent(meta: FiveByteMetaData, amount: nat, min_exp: u8)
    requires
        amount < modulus(),
        meta.encodes(amount, min_exp),
    ensures
        meta.spec_exponent() == five_byte_exponent(amount, min_exp as nat),
{
    lemma_exponent_from(meta, amount, min_exp, min_exp as nat);
}

proof fn lemma_exponent_from(meta: FiveByteMetaData, amount: nat, min_exp: u8, from: nat)
    requires
        amount < modulus(),
        meta.encodes(amount, min_exp),
        min_exp <= from <= meta.spec_exponent(),
    ensures
        five_byte_exponent(amount, from) == meta.spec_exponent(),
    decreases meta.spec_exponent() - from,
{
    if from < meta.spec_exponent() {
        assert(!fits_four_bytes(amount, from));
        if from >= 28 {
            lemma_fits_from_top(amount, from);
        }
        lemma_exponent_from(meta, amount, min_exp, from + 1);
    }
}

/// From 28 bytes of shift on, every 256-bit amount fits in four bytes.
proof fn lemma_fits_from_top(amount: nat, exponent: nat)
    requires
        amount < modulus(),
        exponent >= 28,
    ensures
        fits_four_bytes(amount, exponent),
{
    lemma_pow2_limbs();
    vstd::arithmetic::power2::lemma2_to64();
    vstd::arithmetic::power2::lemma_pow2_adds(224, 32);
    vstd::arithmetic::power2::lemma_pow2_pos(224);
    vstd::arithmetic::div_mod::lemma_multiply_divide_lt(
        amount as int,
        pow2(224) as int,
        pow2(32) as int,
    );
    if exponent > 28 {
        vstd::arithmetic::power2::lemma_pow2_strictly_increases(224, 8 * exponent);
        vstd::arithmetic::div_mod::lemma_div_is_ordered_by_denominator(
            amount as int,
            pow2(224) as int,
            pow2(8 * exponent) as int,
        );
    }
}

/// Decoding what `encode` gave returns at most the amount, and misses it by
/// less than one unit of the mantissa's last place.
pub proof fn lemma_five_byte_round_trip(meta: FiveByteMetaData, amount: nat, min_exp: u8)
    requires
        amount < modulus(),
        meta.encodes(amount, min_exp),
    ensures
        meta.value() <= amount,
        amount - meta.value() < ulp(meta.spec_exponent()),
        meta.value() == meta.spec_mantissa() * ulp(meta.spec_exponent()),
{
    let unit = ulp(meta.spec_exponent());
    vstd::arithmetic::power2::lemma_pow2_pos(8 * meta.spec_exponent());
    vstd::arithmetic::div_mod::lemma_fundamental_div_mod(amount as int, unit as int);
    vstd::arithmetic::div_mod::lemma_mod_bound(amount as int, unit as int);
    assert(unit * (amount / unit) == (amount / unit) * unit) by (nonlinear_arith);
    vstd::arithmetic::div_mod::lemma_small_mod(meta.spec_mantissa() * unit, modulus());
}

/// Taking one off a non-zero mantissa lowers the decoded amount by exactly
/// one unit of the last place.
pub proof fn lemma_decrement_leaves_dust(
    before: FiveByteMetaData,
    after: FiveByteMetaData,
    amount: nat,
    min_exp: u8,
)
    requires
        amount < modulus(),
        before.encodes(amount, min_exp),
        after.spec_exponent() == before.spec_exponent(),
        before.spec_mantissa() > 0,
        after.spec_mantissa() == before.spec_mantissa() - 1,
    ensures
        after.value() + ulp(before.spec_exponent()) == before.value(),
        after.value() < amount,
{
    let unit = ulp(before.spec_exponent());
    lemma_five_byte_round_trip(before, amount, min_exp);
    vstd::arithmetic::power2::lemma_pow2_pos(8 * before.spec_exponent());
    assert((before.spec_mantissa() - 1) * unit + unit == before.spec_mantissa() * unit)
        by (nonlinear_arith);
    assert((before.spec_mantissa() - 1) * unit >= 0) by (nonlinear_arith)
        requires
            before.spec_mantissa() > 0,
    ;
    vstd::arithmetic::div_mod::lemma_small_mod(after.spec_mantissa() * unit, modulus());
}

} // verus!
