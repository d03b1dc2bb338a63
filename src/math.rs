use vstd::prelude::*;

verus! {

/// Maps `v` from a signed domain whose extremes are `-src_neg` and `src_pos` onto
/// one whose extremes are `-dst_neg` and `dst_pos`. The negative half is scaled by
/// `dst_neg / src_neg` and the non-negative half by `dst_pos / src_pos`, each
/// truncated toward zero, so zero stays zero and extremes meet extremes.
pub open spec fn rescale(v: int, src_neg: int, src_pos: int, dst_neg: int, dst_pos: int) -> int {
    if v < 0 {
        -((-v) * dst_neg / src_neg)
    } else {
        v * dst_pos / src_pos
    }
}

pub const I8_NEG: u64 = 128;
pub const I8_POS: u64 = 127;
pub const I16_NEG: u64 = 32768;
pub const I16_POS: u64 = 32767;
pub const I24_NEG: u64 = 8388608;
pub const I24_POS: u64 = 8388607;
pub const I32_NEG: u64 = 2147483648;
pub const I32_POS: u64 = 2147483647;
pub const I64_NEG: u64 = 9223372036854775808;
pub const I64_POS: u64 = 9223372036854775807;

/// Core of every integer mapping: both domains given by their extremes, with the
/// destination at least as wide as the source.
fn rescale_exec(v: i64, src_neg: u64, src_pos: u64, dst_neg: u64, dst_pos: u64) -> (r: i64)
    requires
        0 < src_pos < src_neg <= dst_neg <= I64_NEG,
        src_pos <= dst_pos <= I64_POS,
        src_neg == src_pos + 1,
        dst_neg == dst_pos + 1,
        src_neg <= I32_NEG,
        -(src_neg as int) <= v <= src_pos,
    ensures
        r as int == rescale(v as int, src_neg as int, src_pos as int, dst_neg as int, dst_pos as int),
        -(dst_neg as int) <= r <= dst_pos,
{
    if v < 0 {
        let m: i128 = -(v as i128);
        assert(m * (dst_neg as int) <= (I32_NEG as int) * (I64_NEG as int)) by (nonlinear_arith)
            requires 0 < m <= I32_NEG, 0 < dst_neg <= I64_NEG;
        let p: i128 = m * (dst_neg as i128);
        assert(p <= (src_neg as int) * (dst_neg as int)) by (nonlinear_arith)
            requires p == m * (dst_neg as int), 0 < m <= src_neg, 0 < dst_neg;
        assert(0 <= p / (src_neg as i128) <= dst_neg) by (nonlinear_arith)
            requires p <= (src_neg as int) * (dst_neg as int), 0 <= p, 0 < src_neg;
        let q: i128 = p / (src_neg as i128);
        (-q) as i64
    } else {
        assert(v * (dst_pos as int) <= (I32_NEG as int) * (I64_NEG as int)) by (nonlinear_arith)
            requires 0 <= v <= I32_NEG, 0 < dst_pos <= I64_NEG;
        let p: i128 = (v as i128) * (dst_pos as i128);
        assert(p <= (src_pos as int) * (dst_pos as int)) by (nonlinear_arith)
            requires p == v * (dst_pos as int), 0 <= v <= src_pos, 0 <= dst_pos;
        assert(0 <= p / (src_pos as i128) <= dst_pos) by (nonlinear_arith)
            requires p <= (src_pos as int) * (dst_pos as int), 0 <= p, 0 < src_pos;
        (p / (src_pos as i128)) as i64
    }
}

/// Unsigned 8-bit sample to signed 16-bit: recentred around 128, then rescaled.
pub fn map_u8_to_i16(val: u8) -> (r: i16)
    ensures
        r as int == rescale(val as int - 128, I8_NEG as int, I8_POS as int, I16_NEG as int, I16_POS as int),
{
    rescale_exec(val as i64 - 128, I8_NEG, I8_POS, I16_NEG, I16_POS) as i16
}

pub fn map_u8_to_i32(val: u8) -> (r: i32)
    ensures
        r as int == rescale(val as int - 128, I8_NEG as int, I8_POS as int, I32_NEG as int, I32_POS as int),
{
    rescale_exec(val as i64 - 128, I8_NEG, I8_POS, I32_NEG, I32_POS) as i32
}

pub fn map_u8_to_i64(val: u8) -> (r: i64)
    ensures
        r as int == rescale(val as int - 128, I8_NEG as int, I8_POS as int, I64_NEG as int, I64_POS as int),
{
    rescale_exec(val as i64 - 128, I8_NEG, I8_POS, I64_NEG, I64_POS)
}

pub fn map_i16_to_i32(val: i16) -> (r: i32)
    ensures
        r as int == rescale(val as int, I16_NEG as int, I16_POS as int, I32_NEG as int, I32_POS as int),
{
    rescale_exec(val as i64, I16_NEG, I16_POS, I32_NEG, I32_POS) as i32
}

pub fn map_i16_to_i64(val: i16) -> (r: i64)
    ensures
        r as int == rescale(val as int, I16_NEG as int, I16_POS as int, I64_NEG as int, I64_POS as int),
{
    rescale_exec(val as i64, I16_NEG, I16_POS, I64_NEG, I64_POS)
}

/// A 24-bit sample held in an `i32` (range -8388608 to 8388607) to the full `i32` range.
pub fn map_i24_to_i32(val: i32) -> (r: i32)
    requires
        -(I24_NEG as int) <= val <= I24_POS,
    ensures
        r as int == rescale(val as int, I24_NEG as int, I24_POS as int, I32_NEG as int, I32_POS as int),
{
    rescale_exec(val as i64, I24_NEG, I24_POS, I32_NEG, I32_POS) as i32
}

pub fn map_i24_to_i64(val: i32) -> (r: i64)
    requires
        -(I24_NEG as int) <= val <= I24_POS,
    ensures
        r as int == rescale(val as int, I24_NEG as int, I24_POS as int, I64_NEG as int, I64_POS as int),
{
    rescale_exec(val as i64, I24_NEG, I24_POS, I64_NEG, I64_POS)
}

pub fn map_i32_to_i64(val: i32) -> (r: i64)
    ensures
        r as int == rescale(val as int, I32_NEG as int, I32_POS as int, I64_NEG as int, I64_POS as int),
{
    rescale_exec(val as i64, I32_NEG, I32_POS, I64_NEG, I64_POS)
}

/// Sign and extremes survive a rescaling onto a domain at least as wide.
pub proof fn lemma_rescale_sign_and_extremes(v: int, src_neg: int, src_pos: int, dst_neg: int, dst_pos: int)
    requires
        0 < src_neg <= dst_neg,
        0 < src_pos <= dst_pos,
        -src_neg <= v <= src_pos,
    ensures
        (rescale(v, src_neg, src_pos, dst_neg, dst_pos) < 0) == (v < 0),
        -dst_neg <= rescale(v, src_neg, src_pos, dst_neg, dst_pos) <= dst_pos,
        v == -src_neg ==> rescale(v, src_neg, src_pos, dst_neg, dst_pos) == -dst_neg,
        v == src_pos ==> rescale(v, src_neg, src_pos, dst_neg, dst_pos) == dst_pos,
        v == 0 ==> rescale(v, src_neg, src_pos, dst_neg, dst_pos) == 0,
{
    if v < 0 {
        let m = -v;
        assert(m * dst_neg >= src_neg) by (nonlinear_arith)
            requires m >= 1, dst_neg >= src_neg, src_neg > 0;
        assert(m * dst_neg / src_neg >= 1) by (nonlinear_arith)
            requires m * dst_neg >= src_neg, src_neg > 0;
        assert(m * dst_neg / src_neg <= dst_neg) by (nonlinear_arith)
            requires m <= src_neg, src_neg > 0, dst_neg > 0;
        if v == -src_neg {
            assert(src_neg * dst_neg / src_neg == dst_neg) by (nonlinear_arith)
                requires src_neg > 0;
        }
    } else {
        assert(0 <= v * dst_pos / src_pos <= dst_pos) by (nonlinear_arith)
            requires 0 <= v <= src_pos, src_pos > 0, dst_pos > 0;
        if v == src_pos {
            assert(src_pos * dst_pos / src_pos == dst_pos) by (nonlinear_arith)
                requires src_pos > 0;
        }
    }
}

} // verus!
