use vstd::prelude::*;

verus! {

/// A mask never exceeds either of its operands.
pub broadcast proof fn lemma_u32_and_bound(x: u32, m: u32)
    by (bit_vector)
    ensures
        #[trigger] (x & m) <= m,
        x & m <= x,
{
}

/// A right shift never increases a value.
pub broadcast proof fn lemma_u32_shr_bound(x: u32, s: u32)
    by (bit_vector)
    ensures
        #[trigger] (x >> s) <= x,
{
}

pub broadcast proof fn lemma_u8_and_bound(x: u8, m: u8)
    by (bit_vector)
    ensures
        #[trigger] (x & m) <= m,
        x & m <= x,
{
}

pub broadcast proof fn lemma_u8_shr_bound(x: u8, s: u8)
    by (bit_vector)
    ensures
        #[trigger] (x >> s) <= x,
{
}

/// Packing two bytes is the same as the arithmetic combination.
pub proof fn lemma_u32_pack_bytes(high: u32, low: u32)
    by (bit_vector)
    requires
        high < 0x100,
        low < 0x100,
    ensures
        (high << 8) | low == high * 256 + low,
{
}

/// Indices derived from an OPNA register address stay inside the register file.
pub proof fn lemma_register_index_bits(index: u32)
    by (bit_vector)
    requires
        index < 0x200,
    ensures
        (0x0b8 | ((index >> 3) & 1) | (index & 0x100)) < 0x200,
        (index | 4) < 0x200,
        index & 0xf0 == 0xa0 ==> (0x0b8 | ((index >> 3) & 1) | (index & 0x100)) != index,
        index & 0xf0 == 0xa0 ==> (0x0b8 | ((index >> 3) & 1) | (index & 0x100)) != (index | 4),
{
}

/// A keycode built from a block and frequency is a 5-bit value.
pub proof fn lemma_keycode_bound(block_freq: u32)
    by (bit_vector)
    ensures
        ((((block_freq >> 10) & 0x0f) << 1) | ((0xfe80u32 >> ((block_freq >> 7) & 0x0f)) & 1)) < 32,
{
}

pub broadcast proof fn lemma_u16_and_bound(x: u16, m: u16)
    by (bit_vector)
    ensures
        #[trigger] (x & m) <= m,
        x & m <= x,
{
}

pub broadcast proof fn lemma_u16_shr_bound(x: u16, s: u16)
    by (bit_vector)
    ensures
        #[trigger] (x >> s) <= x,
{
}

/// An arithmetic right shift moves a value towards zero without crossing it.
pub broadcast proof fn lemma_i32_shr_bound(x: i32, s: u32)
    by (bit_vector)
    requires
        s < 32,
    ensures
        x >= 0 ==> 0 <= #[trigger] (x >> s) <= x,
        x < 0 ==> x <= (x >> s) < 0,
{
}

/// On a non-negative i32 the bit operations are arithmetic: a shift by
/// four and the low nibble split it in base 16, a shift by one and the low
/// bit split it in base 2, and a shift by one more halves once more.
pub proof fn lemma_i32_nonneg_bits(x: i32, n: u32)
    by (bit_vector)
    requires
        0 <= x,
        0 <= n < 31,
    ensures
        x == 16 * (x >> 4u32) + (x & 15),
        x == 2 * (x >> 1u32) + (x & 1),
        0 <= x & 15 < 16,
        0 <= x & 1 < 2,
        (x >> n) >> 1u32 == x >> ((n + 1) as u32),
        x >> 0 == x,
        0 <= x >> n,
{
}

/// A non-negative i32 shifted right by `m` is divided by 2 to the `m`.
pub proof fn lemma_i32_shr_is_div(x: i32, m: nat)
    requires
        0 <= x,
        m < 31,
    ensures
        (x >> (m as u32)) as int == (x as int) / (vstd::arithmetic::power2::pow2(m) as int),
    decreases m,
{
    vstd::arithmetic::power2::lemma_pow2_pos(m);
    if m == 0 {
        lemma_i32_nonneg_bits(x, 0);
        vstd::arithmetic::power2::lemma2_to64();
    } else {
        let below = (m - 1) as nat;
        lemma_i32_shr_is_div(x, below);
        lemma_i32_nonneg_bits(x, below as u32);
        let shifted = x >> (below as u32);
        lemma_i32_nonneg_bits(shifted, 0);
        vstd::arithmetic::power2::lemma_pow2_pos(below);
        vstd::arithmetic::power2::lemma_pow2_unfold(m);
        vstd::arithmetic::div_mod::lemma_div_denominator(x as int, vstd::arithmetic::power2::pow2(below) as int, 2);
    }
}

pub broadcast group group_bit_bounds {
    lemma_u16_and_bound,
    lemma_u16_shr_bound,
    lemma_i32_shr_bound,
    lemma_u32_and_bound,
    lemma_u32_shr_bound,
    lemma_u8_and_bound,
    lemma_u8_shr_bound,
}

} // verus!
