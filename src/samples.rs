use vstd::prelude::*;

use crate::bytes::{fits, lemma_le_u32_range, le_i16, le_i24, le_i32, le_i64, le_u32, le_u64, read_u8, read_i16, read_i24, read_i32, read_i64, read_u32, read_u64};
use crate::error::{err, DecodeErrorKind, WaveDecodeError};
use crate::format::WaveFormat;
use crate::math::{
    rescale, lemma_rescale_sign_and_extremes, map_u8_to_i16, map_u8_to_i32, map_u8_to_i64,
    map_i16_to_i32, map_i16_to_i64, map_i24_to_i32, map_i24_to_i64, map_i32_to_i64,
};

verus! {

/// The numeric representations a sample can be decoded into.
#[derive(PartialEq, Eq, Structural, Clone, Copy, Debug)]
pub enum SampleType {
    U8,
    I16,
    I32,
    I64,
    F32,
    F64,
}

/// A sample decoded for a floating-point destination, held exactly: the raw bits
/// of an IEEE value as stored, or the fraction `num / den`, which lies in [-1, 1].
#[derive(PartialEq, Eq, Structural, Clone, Copy, Debug)]
pub enum FloatSample {
    Bits32(u32),
    Bits64(u64),
    Ratio { num: i64, den: u64 },
}

/// Natural bit width of a destination.
pub open spec fn type_bits(t: SampleType) -> int {
    match t {
        SampleType::U8 => 8,
        SampleType::I16 => 16,
        SampleType::I32 => 32,
        SampleType::I64 => 64,
        SampleType::F32 => 32,
        SampleType::F64 => 64,
    }
}

pub open spec fn is_float_type(t: SampleType) -> bool {
    t == SampleType::F32 || t == SampleType::F64
}

/// Bit depths that PCM samples are stored with.
pub open spec fn pcm_bits(bits: int) -> bool {
    bits == 8 || bits == 16 || bits == 24 || bits == 32 || bits == 64
}

/// Magnitude of the most negative value of a signed `bits`-wide domain.
pub open spec fn neg_extreme(bits: int) -> int {
    if bits == 8 {
        128
    } else if bits == 16 {
        32768
    } else if bits == 24 {
        8388608
    } else if bits == 32 {
        2147483648
    } else {
        9223372036854775808
    }
}

/// Largest value of a signed `bits`-wide domain.
pub open spec fn pos_extreme(bits: int) -> int {
    neg_extreme(bits) - 1
}

/// Whether samples of this codec and depth can be decoded into `t`; on success,
/// the number of bytes that one sample takes. Codec compatibility is checked
/// before the depth.
pub open spec fn sample_check(t: SampleType, format: WaveFormat, bits: int) -> Result<int, DecodeErrorKind> {
    match format {
        WaveFormat::Pcm => {
            if bits > type_bits(t) {
                Err(DecodeErrorKind::UnsupportedBitDepth)
            } else if t == SampleType::U8 {
                Ok(1)
            } else if pcm_bits(bits) {
                Ok(bits / 8)
            } else {
                Err(DecodeErrorKind::UnsupportedBitDepth)
            }
        },
        WaveFormat::IeeeFloat => {
            if !is_float_type(t) {
                Err(DecodeErrorKind::IncompatibleDestination)
            } else if bits > type_bits(t) {
                Err(DecodeErrorKind::UnsupportedBitDepth)
            } else if bits == 32 || bits == 64 {
                Ok(bits / 8)
            } else {
                Err(DecodeErrorKind::UnsupportedBitDepth)
            }
        },
        _ => Err(DecodeErrorKind::UnsupportedCodec),
    }
}

/// Zero-centred value of the PCM sample at `i`: 8-bit samples are unsigned
/// around 128, wider ones two's complement (24-bit ones sign-extended).
pub open spec fn pcm_value(b: Seq<u8>, i: int, bits: int) -> int {
    if bits == 8 {
        b[i] as int - 128
    } else if bits == 16 {
        le_i16(b, i)
    } else if bits == 24 {
        le_i24(b, i)
    } else if bits == 32 {
        le_i32(b, i)
    } else {
        le_i64(b, i)
    }
}

/// The PCM sample at `i` carried onto the range of an integer destination.
pub open spec fn int_sample_value(t: SampleType, b: Seq<u8>, i: int, bits: int) -> int {
    if t == SampleType::U8 {
        b[i] as int
    } else {
        rescale(
            pcm_value(b, i, bits),
            neg_extreme(bits),
            pos_extreme(bits),
            neg_extreme(type_bits(t)),
            pos_extreme(type_bits(t)),
        )
    }
}

/// The sample at `i` for a floating-point destination.
pub open spec fn float_sample_value(b: Seq<u8>, i: int, format: WaveFormat, bits: int) -> FloatSample {
    if format == WaveFormat::IeeeFloat {
        if bits == 32 {
            FloatSample::Bits32(le_u32(b, i) as u32)
        } else {
            FloatSample::Bits64(le_u64(b, i) as u64)
        }
    } else {
        let v = pcm_value(b, i, bits);
        FloatSample::Ratio {
            num: v as i64,
            den: (if v < 0 { neg_extreme(bits) } else { pos_extreme(bits) }) as u64,
        }
    }
}

/// Decoding one sample for an integer destination.
pub open spec fn decode_int(t: SampleType, b: Seq<u8>, i: int, format: WaveFormat, bits: int) -> Result<int, DecodeErrorKind> {
    match sample_check(t, format, bits) {
        Err(k) => Err(k),
        Ok(w) => if fits(b, i, w) {
            Ok(int_sample_value(t, b, i, bits))
        } else {
            Err(DecodeErrorKind::TruncatedChunk)
        },
    }
}

/// Decoding one sample for a floating-point destination.
pub open spec fn decode_float(t: SampleType, b: Seq<u8>, i: int, format: WaveFormat, bits: int) -> Result<FloatSample, DecodeErrorKind> {
    match sample_check(t, format, bits) {
        Err(k) => Err(k),
        Ok(w) => if fits(b, i, w) {
            Ok(float_sample_value(b, i, format, bits))
        } else {
            Err(DecodeErrorKind::TruncatedChunk)
        },
    }
}

/// `r` is the integer decoding `d`, in the destination's own type.
pub open spec fn int_result<T>(r: Result<T, WaveDecodeError>, d: Result<int, DecodeErrorKind>, as_int: spec_fn(T) -> int) -> bool {
    match d {
        Ok(v) => r is Ok && as_int(r->Ok_0) == v,
        Err(k) => r is Err && r->Err_0.kind == k,
    }
}

proof fn lemma_rescale_identity(v: int, n: int, p: int)
    requires
        n > 0,
        p > 0,
    ensures
        rescale(v, n, p, n, p) == v,
{
    if v < 0 {
        assert((-v) * n / n == -v) by (nonlinear_arith)
            requires n > 0;
    } else {
        assert(v * p / p == v) by (nonlinear_arith)
            requires p > 0;
    }
}

/// Reads the zero-centred PCM value at `pos`.
fn read_pcm(b: &Vec<u8>, pos: u64, bits: u16) -> (r: Option<i64>)
    requires
        pcm_bits(bits as int),
    ensures
        r is Some <==> fits(b@, pos as int, bits as int / 8),
        r is Some ==> r->0 as int == pcm_value(b@, pos as int, bits as int),
{
    if bits == 8 {
        match read_u8(b, pos) {
            Some(v) => Some(v as i64 - 128),
            None => None,
        }
    } else if bits == 16 {
        match read_i16(b, pos) {
            Some(v) => Some(v as i64),
            None => None,
        }
    } else if bits == 24 {
        match read_i24(b, pos) {
            Some(v) => Some(v as i64),
            None => None,
        }
    } else if bits == 32 {
        match read_i32(b, pos) {
            Some(v) => Some(v as i64),
            None => None,
        }
    } else {
        read_i64(b, pos)
    }
}

/// Decodes one sample at `pos` as an unsigned 8-bit value.
pub fn read_u8_sample(b: &Vec<u8>, pos: u64, format: WaveFormat, bits: u16) -> (r: Result<u8, WaveDecodeError>)
    ensures
        int_result(r, decode_int(SampleType::U8, b@, pos as int, format, bits as int), |x: u8| x as int),
{
    match format {
        WaveFormat::Pcm => {
            if bits > 8 {
                return err(DecodeErrorKind::UnsupportedBitDepth);
            }
            match read_u8(b, pos) {
                Some(v) => Ok(v),
                None => err(DecodeErrorKind::TruncatedChunk),
            }
        },
        WaveFormat::IeeeFloat => err(DecodeErrorKind::IncompatibleDestination),
        _ => err(DecodeErrorKind::UnsupportedCodec),
    }
}

/// Decodes one sample at `pos` as a signed 16-bit value.
pub fn read_i16_sample(b: &Vec<u8>, pos: u64, format: WaveFormat, bits: u16) -> (r: Result<i16, WaveDecodeError>)
    ensures
        int_result(r, decode_int(SampleType::I16, b@, pos as int, format, bits as int), |x: i16| x as int),
{
    match format {
        WaveFormat::Pcm => {
            if bits > 16 {
                err(DecodeErrorKind::UnsupportedBitDepth)
            } else if bits == 8 {
                match read_u8(b, pos) {
                    Some(v) => Ok(map_u8_to_i16(v)),
                    None => err(DecodeErrorKind::TruncatedChunk),
                }
            } else if bits == 16 {
                match read_i16(b, pos) {
                    Some(v) => {
                        proof { lemma_rescale_identity(v as int, 32768, 32767); }
                        Ok(v)
                    },
                    None => err(DecodeErrorKind::TruncatedChunk),
                }
            } else {
                err(DecodeErrorKind::UnsupportedBitDepth)
            }
        },
        WaveFormat::IeeeFloat => err(DecodeErrorKind::IncompatibleDestination),
        _ => err(DecodeErrorKind::UnsupportedCodec),
    }
}

/// Decodes one sample at `pos` as a signed 32-bit value.
pub fn read_i32_sample(b: &Vec<u8>, pos: u64, format: WaveFormat, bits: u16) -> (r: Result<i32, WaveDecodeError>)
    ensures
        int_result(r, decode_int(SampleType::I32, b@, pos as int, format, bits as int), |x: i32| x as int),
{
    match format {
        WaveFormat::Pcm => {
            if bits > 32 {
                err(DecodeErrorKind::UnsupportedBitDepth)
            } else if bits == 8 {
                match read_u8(b, pos) {
                    Some(v) => Ok(map_u8_to_i32(v)),
                    None => err(DecodeErrorKind::TruncatedChunk),
                }
            } else if bits == 16 {
                match read_i16(b, pos) {
                    Some(v) => Ok(map_i16_to_i32(v)),
                    None => err(DecodeErrorKind::TruncatedChunk),
                }
            } else if bits == 24 {
                match read_i24(b, pos) {
                    Some(v) => Ok(map_i24_to_i32(v)),
                    None => err(DecodeErrorKind::TruncatedChunk),
                }
            } else if bits == 32 {
                match read_i32(b, pos) {
                    Some(v) => {
                        proof { lemma_rescale_identity(v as int, 2147483648, 2147483647); }
                        Ok(v)
                    },
                    None => err(DecodeErrorKind::TruncatedChunk),
                }
            } else {
                err(DecodeErrorKind::UnsupportedBitDepth)
            }
        },
        WaveFormat::IeeeFloat => err(DecodeErrorKind::IncompatibleDestination),
        _ => err(DecodeErrorKind::UnsupportedCodec),
    }
}

/// Decodes one sample at `pos` as a signed 64-bit value.
pub fn read_i64_sample(b: &Vec<u8>, pos: u64, format: WaveFormat, bits: u16) -> (r: Result<i64, WaveDecodeError>)
    ensures
        int_result(r, decode_int(SampleType::I64, b@, pos as int, format, bits as int), |x: i64| x as int),
{
    match format {
        WaveFormat::Pcm => {
            if bits > 64 {
                err(DecodeErrorKind::UnsupportedBitDepth)
            } else if bits == 8 {
                match read_u8(b, pos) {
                    Some(v) => Ok(map_u8_to_i64(v)),
                    None => err(DecodeErrorKind::TruncatedChunk),
                }
            } else if bits == 16 {
                match read_i16(b, pos) {
                    Some(v) => Ok(map_i16_to_i64(v)),
                    None => err(DecodeErrorKind::TruncatedChunk),
                }
            } else if bits == 24 {
                match read_i24(b, pos) {
                    Some(v) => Ok(map_i24_to_i64(v)),
                    None => err(DecodeErrorKind::TruncatedChunk),
                }
            } else if bits == 32 {
                match read_i32(b, pos) {
                    Some(v) => Ok(map_i32_to_i64(v)),
                    None => err(DecodeErrorKind::TruncatedChunk),
                }
            } else if bits == 64 {
                match read_i64(b, pos) {
                    Some(v) => {
                        proof { lemma_rescale_identity(v as int, 9223372036854775808, 9223372036854775807); }
                        Ok(v)
                    },
                    None => err(DecodeErrorKind::TruncatedChunk),
                }
            } else {
                err(DecodeErrorKind::UnsupportedBitDepth)
            }
        },
        WaveFormat::IeeeFloat => err(DecodeErrorKind::IncompatibleDestination),
        _ => err(DecodeErrorKind::UnsupportedCodec),
    }
}

/// The zero-centred PCM value `v` of depth `bits` as a fraction of the extreme on
/// its own side: `v / 2^(bits-1)` when negative, `v / (2^(bits-1) - 1)` otherwise.
pub fn unit_ratio(v: i64, bits: u16) -> (r: FloatSample)
    requires
        pcm_bits(bits as int),
        -neg_extreme(bits as int) <= v <= pos_extreme(bits as int),
    ensures
        r == (FloatSample::Ratio {
            num: v,
            den: (if v < 0 { neg_extreme(bits as int) } else { pos_extreme(bits as int) }) as u64,
        }),
{
    let neg: u64 = if bits == 8 {
        128
    } else if bits == 16 {
        32768
    } else if bits == 24 {
        8388608
    } else if bits == 32 {
        2147483648
    } else {
        9223372036854775808
    };
    let den: u64 = if v < 0 { neg } else { neg - 1 };
    FloatSample::Ratio { num: v, den }
}

/// Decodes one sample at `pos` for a floating-point destination `t`.
pub fn read_float_sample(t: SampleType, b: &Vec<u8>, pos: u64, format: WaveFormat, bits: u16) -> (r: Result<FloatSample, WaveDecodeError>)
    requires
        is_float_type(t),
    ensures
        match decode_float(t, b@, pos as int, format, bits as int) {
            Ok(v) => r == Ok::<FloatSample, WaveDecodeError>(v),
            Err(k) => r is Err && r->Err_0.kind == k,
        },
{
    let limit: u16 = match t {
        SampleType::F32 => 32,
        _ => 64,
    };
    match format {
        WaveFormat::Pcm => {
            if bits > limit || !(bits == 8 || bits == 16 || bits == 24 || bits == 32 || bits == 64) {
                return err(DecodeErrorKind::UnsupportedBitDepth);
            }
            match read_pcm(b, pos, bits) {
                Some(v) => {
                    proof { lemma_pcm_range(b@, pos as int, bits as int); }
                    Ok(unit_ratio(v, bits))
                },
                None => err(DecodeErrorKind::TruncatedChunk),
            }
        },
        WaveFormat::IeeeFloat => {
            if bits > limit {
                err(DecodeErrorKind::UnsupportedBitDepth)
            } else if bits == 32 {
                match read_u32(b, pos) {
                    Some(v) => Ok(FloatSample::Bits32(v)),
                    None => err(DecodeErrorKind::TruncatedChunk),
                }
            } else if bits == 64 {
                match read_u64(b, pos) {
                    Some(v) => Ok(FloatSample::Bits64(v)),
                    None => err(DecodeErrorKind::TruncatedChunk),
                }
            } else {
                err(DecodeErrorKind::UnsupportedBitDepth)
            }
        },
        _ => err(DecodeErrorKind::UnsupportedCodec),
    }
}

/// Every whole sample of `data` for an integer destination. Empty data gives no
/// samples whatever the format; bytes after the last whole sample are ignored.
pub open spec fn int_samples(t: SampleType, data: Seq<u8>, format: WaveFormat, bits: int) -> Result<Seq<int>, DecodeErrorKind> {
    if data.len() == 0 {
        Ok(Seq::empty())
    } else {
        match sample_check(t, format, bits) {
            Err(k) => Err(k),
            Ok(w) => Ok(Seq::new((data.len() as int / w) as nat, |j: int| int_sample_value(t, data, j * w, bits))),
        }
    }
}

/// Every whole sample of `data` for a floating-point destination.
pub open spec fn float_samples(t: SampleType, data: Seq<u8>, format: WaveFormat, bits: int) -> Result<Seq<FloatSample>, DecodeErrorKind> {
    if data.len() == 0 {
        Ok(Seq::empty())
    } else {
        match sample_check(t, format, bits) {
            Err(k) => Err(k),
            Ok(w) => Ok(Seq::new((data.len() as int / w) as nat, |j: int| float_sample_value(data, j * w, format, bits))),
        }
    }
}

/// `r` holds the integer samples `d`, each in the destination's own type.
pub open spec fn ints_result<T>(r: Result<Vec<T>, WaveDecodeError>, d: Result<Seq<int>, DecodeErrorKind>, as_int: spec_fn(T) -> int) -> bool {
    match d {
        Ok(s) => r is Ok && r->Ok_0@.len() == s.len() && forall|j: int| 0 <= j < s.len() ==> #[trigger] as_int(r->Ok_0@[j]) == s[j],
        Err(k) => r is Err && r->Err_0.kind == k,
    }
}

/// Bytes per sample for this destination, codec and depth.
pub fn check_sample(t: SampleType, format: WaveFormat, bits: u16) -> (r: Result<u64, WaveDecodeError>)
    ensures
        match sample_check(t, format, bits as int) {
            Ok(w) => r is Ok && r->Ok_0 as int == w,
            Err(k) => r is Err && r->Err_0.kind == k,
        },
        r is Ok ==> 1 <= r->Ok_0 <= 8,
{
    let limit: u16 = match t {
        SampleType::U8 => 8,
        SampleType::I16 => 16,
        SampleType::I32 => 32,
        SampleType::I64 => 64,
        SampleType::F32 => 32,
        SampleType::F64 => 64,
    };
    let float = match t {
        SampleType::F32 => true,
        SampleType::F64 => true,
        _ => false,
    };
    match format {
        WaveFormat::Pcm => {
            if bits > limit {
                err(DecodeErrorKind::UnsupportedBitDepth)
            } else if limit == 8 && !float {
                Ok(1)
            } else if bits == 8 || bits == 16 || bits == 24 || bits == 32 || bits == 64 {
                Ok(bits as u64 / 8)
            } else {
                err(DecodeErrorKind::UnsupportedBitDepth)
            }
        },
        WaveFormat::IeeeFloat => {
            if !float {
                err(DecodeErrorKind::IncompatibleDestination)
            } else if bits > limit {
                err(DecodeErrorKind::UnsupportedBitDepth)
            } else if bits == 32 || bits == 64 {
                Ok(bits as u64 / 8)
            } else {
                err(DecodeErrorKind::UnsupportedBitDepth)
            }
        },
        _ => err(DecodeErrorKind::UnsupportedCodec),
    }
}

proof fn lemma_count_step(k: int, w: int, len: int)
    requires
        w >= 1,
        0 <= k,
    ensures
        (k + 1) * w == k * w + w,
        k * w <= len < k * w + w ==> k == len / w,
{
    assert((k + 1) * w == k * w + w) by (nonlinear_arith);
    if k * w <= len < k * w + w {
        assert(k == len / w) by (nonlinear_arith)
            requires k * w <= len < k * w + w, w >= 1;
    }
}

/// Decodes every whole sample of `data` as signed 16-bit values.
pub fn decode_i16_samples(data: &Vec<u8>, format: WaveFormat, bits: u16) -> (r: Result<Vec<i16>, WaveDecodeError>)
    ensures
        ints_result(r, int_samples(SampleType::I16, data@, format, bits as int), |x: i16| x as int),
{
    let len = data.len() as u64;
    let mut out: Vec<i16> = Vec::new();
    if len == 0 {
        return Ok(out);
    }
    let w = match check_sample(SampleType::I16, format, bits) {
        Ok(w) => w,
        Err(e) => return Err(e),
    };
    let mut pos: u64 = 0;
    while w <= len - pos
        invariant
            len == data@.len(),
            sample_check(SampleType::I16, format, bits as int) == Ok::<int, DecodeErrorKind>(w as int),
            1 <= w <= 8,
            pos as int == out@.len() * w,
            pos <= len,
            forall|j: int| 0 <= j < out@.len() ==> out@[j] as int == int_sample_value(SampleType::I16, data@, j * w, bits as int),
        decreases len - pos,
    {
        let v = read_i16_sample(data, pos, format, bits).unwrap();
        proof { lemma_count_step(out@.len() as int, w as int, len as int); }
        out.push(v);
        pos = pos + w;
    }
    proof { lemma_count_step(out@.len() as int, w as int, len as int); }
    Ok(out)
}

/// Decodes every whole sample of `data` as unsigned 8-bit values.
pub fn decode_u8_samples(data: &Vec<u8>, format: WaveFormat, bits: u16) -> (r: Result<Vec<u8>, WaveDecodeError>)
    ensures
        ints_result(r, int_samples(SampleType::U8, data@, format, bits as int), |x: u8| x as int),
{
    let len = data.len() as u64;
    let mut out: Vec<u8> = Vec::new();
    if len == 0 {
        return Ok(out);
    }
    let w = match check_sample(SampleType::U8, format, bits) {
        Ok(w) => w,
        Err(e) => return Err(e),
    };
    let mut pos: u64 = 0;
    while w <= len - pos
        invariant
            len == data@.len(),
            sample_check(SampleType::U8, format, bits as int) == Ok::<int, DecodeErrorKind>(w as int),
            1 <= w <= 8,
            pos as int == out@.len() * w,
            pos <= len,
            forall|j: int| 0 <= j < out@.len() ==> out@[j] as int == int_sample_value(SampleType::U8, data@, j * w, bits as int),
        decreases len - pos,
    {
        let v = read_u8_sample(data, pos, format, bits).unwrap();
        proof { lemma_count_step(out@.len() as int, w as int, len as int); }
        out.push(v);
        pos = pos + w;
    }
    proof { lemma_count_step(out@.len() as int, w as int, len as int); }
    Ok(out)
}

/// Decodes every whole sample of `data` as signed 32-bit values.
pub fn decode_i32_samples(data: &Vec<u8>, format: WaveFormat, bits: u16) -> (r: Result<Vec<i32>, WaveDecodeError>)
    ensures
        ints_result(r, int_samples(SampleType::I32, data@, format, bits as int), |x: i32| x as int),
{
    let len = data.len() as u64;
    let mut out: Vec<i32> = Vec::new();
    if len == 0 {
        return Ok(out);
    }
    let w = match check_sample(SampleType::I32, format, bits) {
        Ok(w) => w,
        Err(e) => return Err(e),
    };
    let mut pos: u64 = 0;
    while w <= len - pos
        invariant
            len == data@.len(),
            sample_check(SampleType::I32, format, bits as int) == Ok::<int, DecodeErrorKind>(w as int),
            1 <= w <= 8,
            pos as int == out@.len() * w,
            pos <= len,
            forall|j: int| 0 <= j < out@.len() ==> out@[j] as int == int_sample_value(SampleType::I32, data@, j * w, bits as int),
        decreases len - pos,
    {
        let v = read_i32_sample(data, pos, format, bits).unwrap();
        proof { lemma_count_step(out@.len() as int, w as int, len as int); }
        out.push(v);
        pos = pos + w;
    }
    proof { lemma_count_step(out@.len() as int, w as int, len as int); }
    Ok(out)
}

/// Decodes every whole sample of `data` as signed 64-bit values.
pub fn decode_i64_samples(data: &Vec<u8>, format: WaveFormat, bits: u16) -> (r: Result<Vec<i64>, WaveDecodeError>)
    ensures
        ints_result(r, int_samples(SampleType::I64, data@, format, bits as int), |x: i64| x as int),
{
    let len = data.len() as u64;
    let mut out: Vec<i64> = Vec::new();
    if len == 0 {
        return Ok(out);
    }
    let w = match check_sample(SampleType::I64, format, bits) {
        Ok(w) => w,
        Err(e) => return Err(e),
    };
    let mut pos: u64 = 0;
    while w <= len - pos
        invariant
            len == data@.len(),
            sample_check(SampleType::I64, format, bits as int) == Ok::<int, DecodeErrorKind>(w as int),
            1 <= w <= 8,
            pos as int == out@.len() * w,
            pos <= len,
            forall|j: int| 0 <= j < out@.len() ==> out@[j] as int == int_sample_value(SampleType::I64, data@, j * w, bits as int),
        decreases len - pos,
    {
        let v = read_i64_sample(data, pos, format, bits).unwrap();
        proof { lemma_count_step(out@.len() as int, w as int, len as int); }
        out.push(v);
        pos = pos + w;
    }
    proof { lemma_count_step(out@.len() as int, w as int, len as int); }
    Ok(out)
}

/// Decodes every whole sample of `data` for the floating-point destination `t`.
pub fn decode_float_samples(t: SampleType, data: &Vec<u8>, format: WaveFormat, bits: u16) -> (r: Result<Vec<FloatSample>, WaveDecodeError>)
    requires
        is_float_type(t),
    ensures
        match float_samples(t, data@, format, bits as int) {
            Ok(s) => r is Ok && r->Ok_0@ == s,
            Err(k) => r is Err && r->Err_0.kind == k,
        },
{
    let len = data.len() as u64;
    let mut out: Vec<FloatSample> = Vec::new();
    if len == 0 {
        return Ok(out);
    }
    let w = match check_sample(t, format, bits) {
        Ok(w) => w,
        Err(e) => return Err(e),
    };
    let mut pos: u64 = 0;
    while w <= len - pos
        invariant
            len == data@.len(),
            is_float_type(t),
            sample_check(t, format, bits as int) == Ok::<int, DecodeErrorKind>(w as int),
            1 <= w <= 8,
            pos as int == out@.len() * w,
            pos <= len,
            forall|j: int| 0 <= j < out@.len() ==> out@[j] == float_sample_value(data@, j * w, format, bits as int),
        decreases len - pos,
    {
        let v = read_float_sample(t, data, pos, format, bits).unwrap();
        proof { lemma_count_step(out@.len() as int, w as int, len as int); }
        out.push(v);
        pos = pos + w;
    }
    proof {
        lemma_count_step(out@.len() as int, w as int, len as int);
        assert(out@ =~= Seq::new((len as int / w as int) as nat, |j: int| float_sample_value(data@, j * w, format, bits as int)));
    }
    Ok(out)
}

/// Whether the decoded sample lies in the destination's negative (or, for
/// unsigned 8-bit, lower) half.
pub open spec fn decoded_negative(t: SampleType, b: Seq<u8>, i: int, bits: int) -> bool {
    if is_float_type(t) {
        match float_sample_value(b, i, WaveFormat::Pcm, bits) {
            FloatSample::Ratio { num, den } => num < 0,
            _ => false,
        }
    } else if t == SampleType::U8 {
        int_sample_value(t, b, i, bits) < 128
    } else {
        int_sample_value(t, b, i, bits) < 0
    }
}

/// Whether the decoded sample is the destination's lowest value (-1 for floats).
pub open spec fn decoded_at_min(t: SampleType, b: Seq<u8>, i: int, bits: int) -> bool {
    if is_float_type(t) {
        match float_sample_value(b, i, WaveFormat::Pcm, bits) {
            FloatSample::Ratio { num, den } => num == -(den as int),
            _ => false,
        }
    } else if t == SampleType::U8 {
        int_sample_value(t, b, i, bits) == 0
    } else {
        int_sample_value(t, b, i, bits) == -neg_extreme(type_bits(t))
    }
}

/// Whether the decoded sample is the destination's highest value (+1 for floats).
pub open spec fn decoded_at_max(t: SampleType, b: Seq<u8>, i: int, bits: int) -> bool {
    if is_float_type(t) {
        match float_sample_value(b, i, WaveFormat::Pcm, bits) {
            FloatSample::Ratio { num, den } => num == den,
            _ => false,
        }
    } else if t == SampleType::U8 {
        int_sample_value(t, b, i, bits) == 255
    } else {
        int_sample_value(t, b, i, bits) == pos_extreme(type_bits(t))
    }
}

/// Whether the decoded sample is the destination's zero, or for unsigned 8-bit
/// its midpoint 128.
pub open spec fn decoded_at_zero(t: SampleType, b: Seq<u8>, i: int, bits: int) -> bool {
    if is_float_type(t) {
        match float_sample_value(b, i, WaveFormat::Pcm, bits) {
            FloatSample::Ratio { num, den } => num == 0,
            _ => false,
        }
    } else if t == SampleType::U8 {
        int_sample_value(t, b, i, bits) == 128
    } else {
        int_sample_value(t, b, i, bits) == 0
    }
}

proof fn lemma_pcm_range(b: Seq<u8>, i: int, bits: int)
    requires
        pcm_bits(bits),
        fits(b, i, bits / 8),
    ensures
        -neg_extreme(bits) <= pcm_value(b, i, bits) <= pos_extreme(bits),
{
    if bits == 32 || bits == 64 {
        lemma_le_u32_range(b, i);
    }
    if bits == 64 {
        lemma_le_u32_range(b, i + 4);
    }
}

/// Decoding the same PCM bytes into any two destinations that accept their depth
/// agrees on the sign, and the extreme values of the depth decode to the extreme
/// values of every destination.
pub proof fn lemma_destinations_agree(t1: SampleType, t2: SampleType, b: Seq<u8>, i: int, bits: int)
    requires
        sample_check(t1, WaveFormat::Pcm, bits) is Ok,
        sample_check(t2, WaveFormat::Pcm, bits) is Ok,
        pcm_bits(bits),
        fits(b, i, bits / 8),
    ensures
        decoded_negative(t1, b, i, bits) == decoded_negative(t2, b, i, bits),
        pcm_value(b, i, bits) == -neg_extreme(bits) ==> decoded_at_min(t1, b, i, bits) && decoded_at_min(t2, b, i, bits),
        pcm_value(b, i, bits) == pos_extreme(bits) ==> decoded_at_max(t1, b, i, bits) && decoded_at_max(t2, b, i, bits),
{
    lemma_destination_tracks_source(t1, b, i, bits);
    lemma_destination_tracks_source(t2, b, i, bits);
}

proof fn lemma_destination_tracks_source(t: SampleType, b: Seq<u8>, i: int, bits: int)
    requires
        sample_check(t, WaveFormat::Pcm, bits) is Ok,
        pcm_bits(bits),
        fits(b, i, bits / 8),
    ensures
        decoded_negative(t, b, i, bits) == (pcm_value(b, i, bits) < 0),
        pcm_value(b, i, bits) == -neg_extreme(bits) ==> decoded_at_min(t, b, i, bits),
        pcm_value(b, i, bits) == pos_extreme(bits) ==> decoded_at_max(t, b, i, bits),
        pcm_value(b, i, bits) == 0 ==> decoded_at_zero(t, b, i, bits),
{
    lemma_pcm_range(b, i, bits);
    if !is_float_type(t) && t != SampleType::U8 {
        lemma_rescale_sign_and_extremes(
            pcm_value(b, i, bits),
            neg_extreme(bits),
            pos_extreme(bits),
            neg_extreme(type_bits(t)),
            pos_extreme(type_bits(t)),
        );
    }
}

/// A zero-valued PCM sample (the byte 128 at 8 bits, all-zero bytes at wider
/// depths) decodes to zero, or to the midpoint 128 for unsigned 8-bit.
pub proof fn lemma_zero_sample(t: SampleType, b: Seq<u8>, i: int, bits: int)
    requires
        sample_check(t, WaveFormat::Pcm, bits) is Ok,
        pcm_bits(bits),
        fits(b, i, bits / 8),
        bits == 8 ==> b[i] == 128,
        bits > 8 ==> forall|j: int| i <= j < i + bits / 8 ==> b[j] == 0,
    ensures
        decoded_at_zero(t, b, i, bits),
{
    if bits > 8 {
        assert(b[i] == 0 && b[i + 1] == 0);
        if bits >= 24 {
            assert(b[i + 2] == 0);
        }
        if bits >= 32 {
            assert(b[i + 3] == 0);
        }
        if bits == 64 {
            assert(b[i + 4] == 0 && b[i + 5] == 0 && b[i + 6] == 0 && b[i + 7] == 0);
        }
    }
    lemma_destination_tracks_source(t, b, i, bits);
}

/// Number of samples that decoding `data` into `t` yields, or -1 where it fails.
pub open spec fn decoded_len(t: SampleType, data: Seq<u8>, format: WaveFormat, bits: int) -> int {
    if is_float_type(t) {
        match float_samples(t, data, format, bits) {
            Ok(s) => s.len() as int,
            Err(_) => -1,
        }
    } else {
        match int_samples(t, data, format, bits) {
            Ok(s) => s.len() as int,
            Err(_) => -1,
        }
    }
}

/// The `k`-th sample that decoding PCM `data` into `t` yields, placed in its
/// destination's range: `(value, lowest, midpoint, highest)`. A float sample
/// `num / den` is given by its numerator against `-den`, 0 and `den`.
pub open spec fn nth_position(t: SampleType, data: Seq<u8>, bits: int, k: int) -> (int, int, int, int) {
    if is_float_type(t) {
        match float_samples(t, data, WaveFormat::Pcm, bits) {
            Ok(s) => match s[k] {
                FloatSample::Ratio { num, den } => (num as int, -(den as int), 0, den as int),
                _ => (0, 0, 0, 0),
            },
            Err(_) => (0, 0, 0, 0),
        }
    } else {
        match int_samples(t, data, WaveFormat::Pcm, bits) {
            Ok(s) => if t == SampleType::U8 {
                (s[k], 0, 128, 255)
            } else {
                (s[k], -neg_extreme(type_bits(t)), 0, pos_extreme(type_bits(t)))
            },
            Err(_) => (0, 0, 0, 0),
        }
    }
}

proof fn lemma_index_fits(k: int, w: int, len: int)
    requires
        w >= 1,
        0 <= k < len / w,
    ensures
        0 <= k * w,
        k * w + w <= len,
{
    assert(0 <= k * w) by (nonlinear_arith)
        requires 0 <= k, w >= 1;
    assert(k * w + w <= len) by (nonlinear_arith)
        requires w >= 1, 0 <= k < len / w;
}

proof fn lemma_decoded_len(t: SampleType, data: Seq<u8>, bits: int)
    requires
        sample_check(t, WaveFormat::Pcm, bits) is Ok,
        pcm_bits(bits),
    ensures
        decoded_len(t, data, WaveFormat::Pcm, bits) == data.len() as int / (bits / 8),
{
    if data.len() == 0 {
        assert(0int / (bits / 8) == 0);
    }
}

/// The `k`-th decoded sample of a whole sequence is the one decoded at `k * w`.
proof fn lemma_nth_position(t: SampleType, data: Seq<u8>, bits: int, k: int)
    requires
        sample_check(t, WaveFormat::Pcm, bits) is Ok,
        pcm_bits(bits),
        data.len() > 0,
        0 <= k < data.len() as int / (bits / 8),
    ensures
        decoded_len(t, data, WaveFormat::Pcm, bits) == data.len() as int / (bits / 8),
        (nth_position(t, data, bits, k).0 < nth_position(t, data, bits, k).2) == decoded_negative(t, data, k * (bits / 8), bits),
        (nth_position(t, data, bits, k).0 == nth_position(t, data, bits, k).1) == decoded_at_min(t, data, k * (bits / 8), bits),
        (nth_position(t, data, bits, k).0 == nth_position(t, data, bits, k).3) == decoded_at_max(t, data, k * (bits / 8), bits),
        (nth_position(t, data, bits, k).0 == nth_position(t, data, bits, k).2) == decoded_at_zero(t, data, k * (bits / 8), bits),
        fits(data, k * (bits / 8), bits / 8),
{
    let w = bits / 8;
    lemma_index_fits(k, w, data.len() as int);
    lemma_pcm_range(data, k * w, bits);
}

proof fn lemma_pair_at(t1: SampleType, t2: SampleType, data: Seq<u8>, bits: int, k: int)
    requires
        sample_check(t1, WaveFormat::Pcm, bits) is Ok,
        sample_check(t2, WaveFormat::Pcm, bits) is Ok,
        pcm_bits(bits),
        0 <= k < decoded_len(t1, data, WaveFormat::Pcm, bits),
    ensures
        (nth_position(t1, data, bits, k).0 < nth_position(t1, data, bits, k).2)
            == (nth_position(t2, data, bits, k).0 < nth_position(t2, data, bits, k).2),
        pcm_value(data, k * (bits / 8), bits) == -neg_extreme(bits) ==>
            nth_position(t1, data, bits, k).0 == nth_position(t1, data, bits, k).1
            && nth_position(t2, data, bits, k).0 == nth_position(t2, data, bits, k).1,
        pcm_value(data, k * (bits / 8), bits) == pos_extreme(bits) ==>
            nth_position(t1, data, bits, k).0 == nth_position(t1, data, bits, k).3
            && nth_position(t2, data, bits, k).0 == nth_position(t2, data, bits, k).3,
{
    lemma_decoded_len(t1, data, bits);
    lemma_nth_position(t1, data, bits, k);
    lemma_nth_position(t2, data, bits, k);
    lemma_destinations_agree(t1, t2, data, k * (bits / 8), bits);
}

/// Decoding the same PCM data into any two destinations that accept its depth
/// gives sequences of the same length that agree, sample by sample, on the
/// sign; wherever the source holds its depth's lowest or highest value, both
/// sequences hold their destination's lowest or highest value.
pub proof fn lemma_sequences_agree(t1: SampleType, t2: SampleType, data: Seq<u8>, bits: int)
    requires
        sample_check(t1, WaveFormat::Pcm, bits) is Ok,
        sample_check(t2, WaveFormat::Pcm, bits) is Ok,
        pcm_bits(bits),
    ensures
        decoded_len(t1, data, WaveFormat::Pcm, bits) == decoded_len(t2, data, WaveFormat::Pcm, bits) >= 0,
        forall|k: int| #![trigger nth_position(t1, data, bits, k)] 0 <= k < decoded_len(t1, data, WaveFormat::Pcm, bits) ==>
            ((nth_position(t1, data, bits, k).0 < nth_position(t1, data, bits, k).2)
                == (nth_position(t2, data, bits, k).0 < nth_position(t2, data, bits, k).2))
            && (pcm_value(data, k * (bits / 8), bits) == -neg_extreme(bits) ==>
                nth_position(t1, data, bits, k).0 == nth_position(t1, data, bits, k).1
                && nth_position(t2, data, bits, k).0 == nth_position(t2, data, bits, k).1)
            && (pcm_value(data, k * (bits / 8), bits) == pos_extreme(bits) ==>
                nth_position(t1, data, bits, k).0 == nth_position(t1, data, bits, k).3
                && nth_position(t2, data, bits, k).0 == nth_position(t2, data, bits, k).3),
{
    lemma_decoded_len(t1, data, bits);
    lemma_decoded_len(t2, data, bits);
    assert forall|k: int| #![trigger nth_position(t1, data, bits, k)] 0 <= k < decoded_len(t1, data, WaveFormat::Pcm, bits) implies
        ((nth_position(t1, data, bits, k).0 < nth_position(t1, data, bits, k).2)
            == (nth_position(t2, data, bits, k).0 < nth_position(t2, data, bits, k).2))
        && (pcm_value(data, k * (bits / 8), bits) == -neg_extreme(bits) ==>
            nth_position(t1, data, bits, k).0 == nth_position(t1, data, bits, k).1
            && nth_position(t2, data, bits, k).0 == nth_position(t2, data, bits, k).1)
        && (pcm_value(data, k * (bits / 8), bits) == pos_extreme(bits) ==>
            nth_position(t1, data, bits, k).0 == nth_position(t1, data, bits, k).3
            && nth_position(t2, data, bits, k).0 == nth_position(t2, data, bits, k).3) by {
        lemma_pair_at(t1, t2, data, bits, k);
    }
}

/// PCM data made only of zero-valued samples (bytes of 128 at 8 bits, zero bytes
/// at wider depths) decodes, into any destination that accepts its depth, to
/// one midpoint value per whole sample: zero, or 128 for unsigned 8-bit.
pub proof fn lemma_zero_sequence(t: SampleType, data: Seq<u8>, bits: int)
    requires
        sample_check(t, WaveFormat::Pcm, bits) is Ok,
        pcm_bits(bits),
        forall|j: int| 0 <= j < data.len() ==> data[j] == (if bits == 8 { 128u8 } else { 0u8 }),
    ensures
        decoded_len(t, data, WaveFormat::Pcm, bits) == data.len() as int / (bits / 8),
        forall|k: int| 0 <= k < decoded_len(t, data, WaveFormat::Pcm, bits) ==>
            #[trigger] nth_position(t, data, bits, k).0 == nth_position(t, data, bits, k).2,
{
    lemma_decoded_len(t, data, bits);
    if data.len() > 0 {
        assert forall|k: int| 0 <= k < decoded_len(t, data, WaveFormat::Pcm, bits) implies
            #[trigger] nth_position(t, data, bits, k).0 == nth_position(t, data, bits, k).2 by {
            lemma_nth_position(t, data, bits, k);
            lemma_zero_sample(t, data, k * (bits / 8), bits);
        }
    }
}

} // verus!
