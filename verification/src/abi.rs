//! 32-byte words as they stand in call data and return data: big-endian
//! numbers, read and written byte by byte.

use crate::uint::{lemma_pow2_limbs, lemma_view_injective, modulus, U256};
use vstd::arithmetic::power2::pow2;
use vstd::prelude::*;

verus! {

/// The length of a word in call data and return data.
pub const WORD: usize = 32;

/// The number that a string of bytes spells, most significant byte first.
pub open spec fn be_value(bytes: Seq<u8>) -> nat
    decreases bytes.len(),
{
    if bytes.len() == 0 {
        0
    } else {
        be_value(bytes.drop_last()) * 256 + bytes.last() as nat
    }
}

/// The `i`-th byte of the 32-byte big-endian spelling of `n`.
pub open spec fn be_byte(n: nat, i: int) -> u8 {
    ((n / pow2((8 * (31 - i)) as nat)) % 256) as u8
}

/// The 32-byte big-endian spelling of `n`.
pub open spec fn be_word(n: nat) -> Seq<u8> {
    Seq::new(32, |i: int| be_byte(n, i))
}

/// A string of `len` bytes spells a number below 2^(8·len).
pub proof fn lemma_be_value_bound(bytes: Seq<u8>)
    ensures
        be_value(bytes) < pow2(8 * bytes.len()),
    decreases bytes.len(),
{
    if bytes.len() == 0 {
        vstd::arithmetic::power2::lemma2_to64();
    } else {
        lemma_be_value_bound(bytes.drop_last());
        vstd::arithmetic::power2::lemma2_to64();
        vstd::arithmetic::power2::lemma_pow2_adds((8 * (bytes.len() - 1)) as nat, 8);
    }
}

/// The first `k` bytes of the spelling of `n` spell `n` without its last
/// `32 - k` bytes.
proof fn lemma_be_word_prefix(n: nat, k: nat)
    requires
        n < modulus(),
        k <= 32,
    ensures
        be_value(be_word(n).subrange(0, k as int)) == n / pow2((8 * (32 - k)) as nat),
    decreases k,
{
    lemma_pow2_limbs();
    let word = be_word(n);
    if k == 0 {
        vstd::arithmetic::div_mod::lemma_basic_div(n as int, modulus() as int);
    } else {
        lemma_be_word_prefix(n, (k - 1) as nat);
        let head = word.subrange(0, k as int);
        assert(head.drop_last() =~= word.subrange(0, k - 1));
        assert(head.last() == be_byte(n, k - 1));
        let unit = pow2((8 * (32 - k)) as nat);
        let v = n / unit;
        vstd::arithmetic::power2::lemma_pow2_pos((8 * (32 - k)) as nat);
        vstd::arithmetic::power2::lemma2_to64();
        vstd::arithmetic::power2::lemma_pow2_adds((8 * (32 - k)) as nat, 8);
        vstd::arithmetic::div_mod::lemma_div_denominator(n as int, unit as int, 256);
        vstd::arithmetic::div_mod::lemma_fundamental_div_mod(v as int, 256);
        assert((8 * (32 - k) + 8) as nat == (8 * (32 - (k - 1))) as nat);
        assert((8 * (31 - (k - 1))) as nat == (8 * (32 - k)) as nat);
    }
}

/// Reading back the spelling of a number gives the number.
pub proof fn lemma_be_word_round_trip(n: nat)
    requires
        n < modulus(),
    ensures
        be_word(n).len() == 32,
        be_value(be_word(n)) == n,
{
    lemma_be_word_prefix(n, 32);
    assert(be_word(n).subrange(0, 32) =~= be_word(n));
    vstd::arithmetic::power2::lemma2_to64();
}

/// The word that starts at `start`, as a number.
pub fn read_word(bytes: &Vec<u8>, start: usize) -> (word: U256)
    requires
        start + WORD <= bytes.len(),
    ensures
        word@ == be_value(bytes@.subrange(start as int, start + WORD)),
{
    let mut acc = U256::zero();
    let mut i: usize = 0;
    let shift = U256::from_u64(256);
    while i < 32
        invariant
            i <= 32,
            start + 32 <= bytes.len(),
            shift@ == 256,
            acc@ == be_value(bytes@.subrange(start as int, start + i)),
        decreases 32 - i,
    {
        proof {
            let head = bytes@.subrange(start as int, start + i);
            let next = bytes@.subrange(start as int, start + i + 1);
            assert(next.drop_last() =~= head);
            lemma_be_value_bound(next);
            lemma_pow2_limbs();
            if i + 1 < 32 {
                vstd::arithmetic::power2::lemma_pow2_strictly_increases((8 * (i + 1)) as nat, 256);
            }
            vstd::arithmetic::div_mod::lemma_small_mod(acc@ * 256, modulus());
            vstd::arithmetic::div_mod::lemma_small_mod(acc@ * 256 + bytes[start + i] as nat, modulus());
        }
        let shifted = acc.overflowing_mul(&shift).0;
        acc = shifted.overflowing_add(&U256::from_u64(bytes[start + i] as u64)).0;
        i = i + 1;
    }
    acc
}

/// The word at position `index` of return data, or `None` where the data
/// ends before the word does.
pub fn word_at(bytes: &Vec<u8>, index: usize) -> (word: Option<U256>)
    ensures
        match word {
            Some(w) => (index + 1) * WORD <= bytes.len() && w@ == be_value(
                bytes@.subrange(index * WORD, (index + 1) * WORD),
            ),
            None => (index + 1) * WORD > bytes.len(),
        },
{
    if index < bytes.len() / 32 {
        Some(read_word(bytes, index * 32))
    } else {
        None
    }
}

/// Appends the 32-byte spelling of `value`.
pub fn push_word(bytes: &mut Vec<u8>, value: &U256)
    ensures
        final(bytes)@ == old(bytes)@ + be_word(value@),
{
    let ghost before = bytes@;
    let mut i: usize = 0;
    while i < 32
        invariant
            i <= 32,
            bytes@ == before + be_word(value@).subrange(0, i as int),
        decreases 32 - i,
    {
        let shifted = value.shr(8 * (31 - i));
        proof {
            lemma_view_injective(shifted, shifted);
        }
        let byte: u8 = (shifted.w0 % 256) as u8;
        bytes.push(byte);
        proof {
            assert(byte == be_byte(value@, i as int));
            assert(bytes@ =~= before + be_word(value@).subrange(0, i + 1));
        }
        i = i + 1;
    }
    proof {
        assert(be_word(value@).subrange(0, 32) =~= be_word(value@));
    }
}

/// The Keccak-256 digest of a byte string.
pub uninterp spec fn keccak256_digest(bytes: Seq<u8>) -> Seq<u8>;

/// Calls `ethers::utils::keccak256`. Taken on trust: the result is 32 bytes
/// long and depends on the input bytes alone. Nothing else is known of it
/// here.
#[verifier::external_body]
fn outside_keccak256(bytes: &Vec<u8>) -> (digest: Vec<u8>)
    ensures
        digest@ == keccak256_digest(bytes@),
        digest@.len() == 32,
{
    ethers::utils::keccak256(bytes).to_vec()
}

/// What is hashed to find a holder's entry in a token's balance mapping:
/// the holder's address as a word, then the mapping's slot as a word.
pub open spec fn mapping_key_preimage(holder: nat, mapping_slot: nat) -> Seq<u8> {
    be_word(holder) + be_word(mapping_slot)
}

pub fn mapping_key_bytes(holder: &U256, mapping_slot: &U256) -> (bytes: Vec<u8>)
    ensures
        bytes@ == mapping_key_preimage(holder@, mapping_slot@),
{
    let mut bytes: Vec<u8> = Vec::new();
    push_word(&mut bytes, holder);
    push_word(&mut bytes, mapping_slot);
    proof {
        assert(bytes@ =~= be_word(holder@) + be_word(mapping_slot@));
    }
    bytes
}

/// The storage slot of a holder's entry in a mapping that a contract keeps
/// at `mapping_slot`: the digest of the key, read as a number.
pub fn mapping_storage_slot(holder: &U256, mapping_slot: &U256) -> (slot: U256)
    ensures
        slot@ == be_value(keccak256_digest(mapping_key_preimage(holder@, mapping_slot@))),
{
    let key = mapping_key_bytes(holder, mapping_slot);
    let digest = outside_keccak256(&key);
    proof {
        assert(digest@.subrange(0, 32) =~= digest@);
    }
    read_word(&digest, 0)
}

} // verus!
