//! The `SystemState` array crosses the host/guest boundary as IEEE-754
//! little-endian doubles. Inside this crate every double is carried as its
//! raw 64-bit pattern, so screening for NaN and infinity, the truncating
//! casts to integers, and the exact conversions from small integers are all
//! plain integer logic on the pattern: sign bit 63, exponent bits 62..52,
//! fraction bits 51..0.

use vstd::prelude::*;

verus! {

/// Fraction mask: the low 52 bits of a double's pattern.
pub const FRAC_MASK: u64 = 0xf_ffff_ffff_ffff;

/// The exponent field of the pattern.
pub open spec fn f64_exp(b: u64) -> u64 {
    (b >> 52) & 0x7ff
}

/// A pattern is finite (neither NaN nor an infinity) exactly when its
/// exponent field is not all ones.
pub open spec fn f64_is_finite(b: u64) -> bool {
    f64_exp(b) != 0x7ff
}

/// The screened pattern: non-finite values read as zero.
pub open spec fn sanitize_bits(b: u64) -> u64 {
    if f64_is_finite(b) {
        b
    } else {
        0
    }
}

/// For a finite pattern: the value compares `> 0.0` exactly when the sign
/// bit is clear and the pattern is not `+0.0`.
pub open spec fn f64_is_pos(b: u64) -> bool {
    b >> 63 == 0 && b != 0
}

/// For a finite pattern: the value compares `!= 0.0` exactly when the
/// pattern is neither `+0.0` nor `-0.0`.
pub open spec fn f64_is_nonzero(b: u64) -> bool {
    b != 0 && b != 0x8000_0000_0000_0000
}

/// Executable finiteness test on the pattern.
pub fn bits_finite(b: u64) -> (r: bool)
    ensures
        r == f64_is_finite(b),
{
    (b >> 52) & 0x7ff != 0x7ff
}

/// Executable screening: non-finite patterns become zero.
pub fn bits_sanitize(b: u64) -> (r: u64)
    ensures
        r == sanitize_bits(b),
{
    if bits_finite(b) {
        b
    } else {
        0
    }
}

/// Executable `> 0.0` test for a finite pattern.
pub fn bits_pos(b: u64) -> (r: bool)
    ensures
        r == f64_is_pos(b),
{
    b >> 63 == 0 && b != 0
}

/// Executable `!= 0.0` test for a finite pattern.
pub fn bits_nonzero(b: u64) -> (r: bool)
    ensures
        r == f64_is_nonzero(b),
{
    b != 0 && b != 0x8000_0000_0000_0000
}

/// The saturating cast of a double to `u64` (Rust's `as u64`): truncate
/// toward zero, clamp to `[0, u64::MAX]`; NaN (in either sign) casts to
/// zero, the positive infinity saturates high, the negative one low.
pub open spec fn f64_bits_trunc_u64(b: u64) -> u64 {
    let exp = f64_exp(b);
    let frac = b & FRAC_MASK;
    if b >> 63 == 1 {
        0
    } else if exp == 0x7ff && frac != 0 {
        0
    } else if exp < 1023 {
        0
    } else if exp >= 1087 {
        u64::MAX
    } else if exp >= 1075 {
        (0x10_0000_0000_0000u64 | frac) << ((exp - 1075) as u64)
    } else {
        (0x10_0000_0000_0000u64 | frac) >> ((1075 - exp) as u64)
    }
}

/// The saturating cast of a double to `u32` (Rust's `as u32`).
pub open spec fn f64_bits_trunc_u32(b: u64) -> u32 {
    let t = f64_bits_trunc_u64(b);
    if t > u32::MAX {
        u32::MAX
    } else {
        t as u32
    }
}

/// Executable truncating cast to `u64` on the pattern.
pub fn bits_trunc_u64(b: u64) -> (r: u64)
    ensures
        r == f64_bits_trunc_u64(b),
{
    let exp: u64 = (b >> 52) & 0x7ff;
    let frac: u64 = b & FRAC_MASK;
    if b >> 63 == 1 {
        0
    } else if exp == 0x7ff && frac != 0 {
        0
    } else if exp < 1023 {
        0
    } else if exp >= 1087 {
        u64::MAX
    } else if exp >= 1075 {
        (0x10_0000_0000_0000u64 | frac) << (exp - 1075)
    } else {
        (0x10_0000_0000_0000u64 | frac) >> (1075 - exp)
    }
}

/// Executable truncating cast to `u32` on the pattern.
pub fn bits_trunc_u32(b: u64) -> (r: u32)
    ensures
        r == f64_bits_trunc_u32(b),
{
    let t: u64 = bits_trunc_u64(b);
    if t > 0xffff_ffff {
        u32::MAX
    } else {
        t as u32
    }
}

/// Powers of two, as a plain recursion.
pub open spec fn pow2n(n: nat) -> nat
    decreases n,
{
    if n == 0 {
        1
    } else {
        2 * pow2n((n - 1) as nat)
    }
}

/// The position of the highest set bit.
pub open spec fn floor_log2(v: u64) -> nat
    decreases v,
{
    if v < 2 {
        0
    } else {
        1 + floor_log2(v / 2)
    }
}

/// `floor_log2` names the highest set bit: `2^h <= v < 2^(h+1)`.
pub proof fn lemma_floor_log2_range(v: u64)
    requires
        v >= 1,
    ensures
        pow2n(floor_log2(v)) <= v < pow2n(floor_log2(v) + 1),
    decreases v,
{
    if v >= 2 {
        lemma_floor_log2_range(v / 2);
    }
}

/// The pattern of `v as f64` for `v < 2^53`, where the conversion is exact:
/// biased exponent `1023 + floor_log2(v)`, fraction the bits of `v` below
/// its leading one, shifted up to bit 51.
pub open spec fn u53_to_f64_bits(v: u64) -> u64 {
    if v == 0 {
        0
    } else {
        let h = floor_log2(v);
        (((1023 + h) as u64) << 52) | ((v << ((52 - h as int) as u64)) & FRAC_MASK)
    }
}

/// Executable conversion of a small integer to its exact double pattern.
pub fn small_to_f64_bits(v: u64) -> (r: u64)
    requires
        v < 0x20_0000_0000_0000,
    ensures
        r == u53_to_f64_bits(v),
{
    if v == 0 {
        return 0;
    }
    let mut h: u64 = 0;
    let mut x: u64 = v;
    while x >= 2
        invariant
            x >= 1,
            h + floor_log2(x) == floor_log2(v),
            h <= 63,
        decreases x,
    {
        proof {
            assert(x / 2 >= 1);
            assert(floor_log2(x) == 1 + floor_log2(x / 2));
            assert(floor_log2(x) >= 1);
            lemma_floor_log2_le_63(v);
        }
        x = x / 2;
        h = h + 1;
    }
    proof {
        assert(floor_log2(x) == 0);
        assert(h == floor_log2(v));
        lemma_floor_log2_u53(v);
        assert(h <= 52);
    }
    ((1023 + h) << 52u64) | ((v << (52 - h)) & FRAC_MASK)
}

/// The highest bit position of any `u64` is at most 63.
pub proof fn lemma_floor_log2_le_63(v: u64)
    ensures
        floor_log2(v) <= 63,
{
    lemma_pow2n_shift(63);
    assert((1u64 << 63u64) == 0x8000_0000_0000_0000) by (bit_vector);
    assert(pow2n(64) == 2 * pow2n(63));
    lemma_floor_log2_below(v, 63);
}

/// Below `2^53` the highest bit position is at most 52.
pub proof fn lemma_floor_log2_u53(v: u64)
    requires
        v < 0x20_0000_0000_0000,
    ensures
        floor_log2(v) <= 52,
{
    lemma_pow2n_shift(53);
    assert((1u64 << 53u64) == 0x20_0000_0000_0000) by (bit_vector);
    lemma_floor_log2_below(v, 52);
}

/// If `v < 2^(n+1)` then `floor_log2(v) <= n`.
pub proof fn lemma_floor_log2_below(v: u64, n: nat)
    requires
        v < pow2n(n + 1),
    ensures
        floor_log2(v) <= n,
    decreases v,
{
    if v >= 2 {
        if n == 0 {
            assert(pow2n(1) == 2);
        } else {
            assert(pow2n(n + 1) == 2 * pow2n(n));
            lemma_floor_log2_below(v / 2, (n - 1) as nat);
        }
    }
}

/// Values of `pow2n` needed to connect the spec to 64-bit shifts.
pub proof fn lemma_pow2n_shift(h: u64)
    requires
        h <= 63,
    ensures
        pow2n(h as nat) == (1u64 << h),
    decreases h,
{
    if h == 0 {
        assert(1u64 << 0u64 == 1) by (bit_vector);
    } else {
        lemma_pow2n_shift((h - 1) as u64);
        let g: u64 = (h - 1) as u64;
        assert(g <= 62 ==> (1u64 << (g + 1)) == 2 * (1u64 << g)) by (bit_vector);
        assert(pow2n(h as nat) == 2 * pow2n(g as nat));
    }
}

/// The conversion of a small integer is a finite pattern, and the
/// truncating cast brings the integer back: the two casts are exact
/// inverses below `2^53`.
pub proof fn lemma_small_round_trip(v: u64)
    requires
        v < 0x20_0000_0000_0000,
    ensures
        f64_is_finite(u53_to_f64_bits(v)),
        f64_bits_trunc_u64(u53_to_f64_bits(v)) == v,
{
    if v == 0 {
        assert(f64_exp(0) == 0) by (bit_vector);
        assert(f64_bits_trunc_u64(0) == 0) by (bit_vector);
    } else {
        let h = floor_log2(v);
        lemma_floor_log2_u53(v);
        lemma_floor_log2_range(v);
        lemma_pow2n_shift(h as u64);
        lemma_pow2n_shift((h + 1) as u64);
        let hh: u64 = h as u64;
        let h1: u64 = (h + 1) as u64;
        let b = u53_to_f64_bits(v);
        assert((1u64 << hh) <= v);
        assert(v < (1u64 << h1));
        assert(h1 == hh + 1);
        assert(hh <= 52 && (1u64 << hh) <= v && v < (1u64 << ((hh + 1) as u64)) ==> {
            let s = (52 - hh) as u64;
            let c = (((1023 + hh) as u64) << 52) | ((v << s) & 0xf_ffff_ffff_ffffu64);
            &&& (c >> 52) & 0x7ff == (1023 + hh) as u64
            &&& (c >> 52) & 0x7ff != 0x7ff
            &&& c >> 63 == 0
            &&& c & 0xf_ffff_ffff_ffff == (v << s) & 0xf_ffff_ffff_ffff
            &&& (0x10_0000_0000_0000u64 | ((v << s) & 0xf_ffff_ffff_ffff)) >> s == v
        }) by (bit_vector);
        assert(b == (((1023 + hh) as u64) << 52) | ((v << ((52 - hh) as u64))
            & 0xf_ffff_ffff_ffffu64));
        assert(f64_exp(b) == (1023 + hh) as u64);
        let fr: u64 = b & FRAC_MASK;
        assert((0x10_0000_0000_0000u64 | fr) >> ((52 - hh) as u64) == v);
        if hh == 52 {
            assert(f64_exp(b) == 1075);
            assert((0x10_0000_0000_0000u64 | fr) << 0u64 == (0x10_0000_0000_0000u64 | fr)
                >> 0u64) by (bit_vector);
        } else {
            assert(1023 <= f64_exp(b) < 1075);
            assert((1075 - f64_exp(b)) as u64 == (52 - hh) as u64);
        }
    }
}

/// Screening is idempotent, and a screened pattern is finite or zero.
pub proof fn lemma_sanitize_idempotent(b: u64)
    ensures
        sanitize_bits(sanitize_bits(b)) == sanitize_bits(b),
        f64_is_finite(sanitize_bits(b)),
{
    assert(f64_exp(0) == 0) by (bit_vector);
}

} // verus!
