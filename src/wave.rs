use vstd::prelude::*;
use vstd::utf8::{decode_utf8, valid_utf8};

use crate::bytes::{fits, lemma_le_u32_range, le_u16, le_u32, le_u128, read_u16, read_u32, read_u128};
use crate::error::{err, DecodeErrorKind, WaveDecodeError};
use crate::format::{format_of_code, WaveFormat};
use crate::samples::{
    decode_float_samples, decode_i16_samples, decode_i32_samples, decode_i64_samples, decode_u8_samples,
    float_samples, int_samples, ints_result, FloatSample, SampleType,
};
use crate::metadata::{
    copy_range, empty_metadata, info_field, info_field_of, read_text, with_field, AudioMetadata,
    MetadataView,
};

verus! {

/// A decoded container: format description, metadata and the raw sample bytes.
#[derive(Debug)]
pub struct WaveFile {
    pub format: WaveFormat,
    pub channels: u16,
    pub sample_rate: u32,
    pub data_rate: u32,
    pub bits_per_sample: u16,
    pub num_of_samples: Option<u32>,
    pub valid_bps: Option<u16>,
    pub channel_mask: Option<u32>,
    pub sub_format: Option<u128>,
    pub frame_size: u16,
    pub sample_data: Vec<u8>,
    pub metadata: AudioMetadata,
}

/// Everything a `WaveFile` holds, with the samples as a byte sequence and the
/// metadata as character sequences.
pub struct WaveView {
    pub format: WaveFormat,
    pub channels: u16,
    pub sample_rate: u32,
    pub data_rate: u32,
    pub bits_per_sample: u16,
    pub num_of_samples: Option<u32>,
    pub valid_bps: Option<u16>,
    pub channel_mask: Option<u32>,
    pub sub_format: Option<u128>,
    pub frame_size: u16,
    pub sample_data: Seq<u8>,
    pub metadata: MetadataView,
}

impl View for WaveFile {
    type V = WaveView;

    open spec fn view(&self) -> WaveView {
        WaveView {
            format: self.format,
            channels: self.channels,
            sample_rate: self.sample_rate,
            data_rate: self.data_rate,
            bits_per_sample: self.bits_per_sample,
            num_of_samples: self.num_of_samples,
            valid_bps: self.valid_bps,
            channel_mask: self.channel_mask,
            sub_format: self.sub_format,
            frame_size: self.frame_size,
            sample_data: self.sample_data@,
            metadata: self.metadata@,
        }
    }
}

/// The state a decode starts from: nothing read yet.
pub open spec fn initial_view() -> WaveView {
    WaveView {
        format: WaveFormat::Unknown,
        channels: 0,
        sample_rate: 0,
        data_rate: 0,
        bits_per_sample: 0,
        num_of_samples: None,
        valid_bps: None,
        channel_mask: None,
        sub_format: None,
        frame_size: 0,
        sample_data: Seq::empty(),
        metadata: empty_metadata(),
    }
}

/// Number of whole frames in the sample data.
pub open spec fn frame_count(w: WaveView) -> int {
    w.sample_data.len() as int / w.frame_size as int
}

/// Samples over all channels: the `fact` count where one was read, else
/// derived from the data length.
pub open spec fn total_samples(w: WaveView) -> int {
    match w.num_of_samples {
        Some(n) => n as int,
        None => frame_count(w) * w.channels as int,
    }
}

impl WaveFile {
    pub fn new() -> (r: WaveFile)
        ensures
            r@ == initial_view(),
    {
        WaveFile {
            format: WaveFormat::Unknown,
            channels: 0,
            sample_rate: 0,
            data_rate: 0,
            bits_per_sample: 0,
            num_of_samples: None,
            valid_bps: None,
            channel_mask: None,
            sub_format: None,
            frame_size: 0,
            sample_data: Vec::new(),
            metadata: AudioMetadata::new(),
        }
    }

    /// Bytes per multi-channel frame, as the `fmt` chunk declared it.
    pub fn frame_size(&self) -> (r: u16)
        ensures
            r == self@.frame_size,
    {
        self.frame_size
    }

    /// The raw sample bytes of the `data` chunk.
    pub fn sample_data(&self) -> (r: &Vec<u8>)
        ensures
            r@ == self@.sample_data,
    {
        &self.sample_data
    }

    pub fn num_of_samples(&self) -> (r: u32)
        requires
            self@.num_of_samples is None ==> self@.frame_size > 0,
            total_samples(self@) <= u32::MAX,
        ensures
            r == total_samples(self@),
    {
        match self.num_of_samples {
            Some(x) => x,
            None => {
                let frames: u64 = self.sample_data.len() as u64 / self.frame_size as u64;
                assert(frames * (self.channels as int) <= u32::MAX);
                (frames * self.channels as u64) as u32
            },
        }
    }

    pub fn samples_u8(&self) -> (r: Result<Vec<u8>, WaveDecodeError>)
        ensures
            ints_result(r, int_samples(SampleType::U8, self@.sample_data, self@.format, self@.bits_per_sample as int), |x: u8| x as int),
    {
        decode_u8_samples(&self.sample_data, self.format, self.bits_per_sample)
    }

    pub fn samples_i16(&self) -> (r: Result<Vec<i16>, WaveDecodeError>)
        ensures
            ints_result(r, int_samples(SampleType::I16, self@.sample_data, self@.format, self@.bits_per_sample as int), |x: i16| x as int),
    {
        decode_i16_samples(&self.sample_data, self.format, self.bits_per_sample)
    }

    pub fn samples_i32(&self) -> (r: Result<Vec<i32>, WaveDecodeError>)
        ensures
            ints_result(r, int_samples(SampleType::I32, self@.sample_data, self@.format, self@.bits_per_sample as int), |x: i32| x as int),
    {
        decode_i32_samples(&self.sample_data, self.format, self.bits_per_sample)
    }

    pub fn samples_i64(&self) -> (r: Result<Vec<i64>, WaveDecodeError>)
        ensures
            ints_result(r, int_samples(SampleType::I64, self@.sample_data, self@.format, self@.bits_per_sample as int), |x: i64| x as int),
    {
        decode_i64_samples(&self.sample_data, self.format, self.bits_per_sample)
    }

    /// Samples for a 32-bit float destination, held exactly.
    pub fn samples_f32(&self) -> (r: Result<Vec<FloatSample>, WaveDecodeError>)
        ensures
            match float_samples(SampleType::F32, self@.sample_data, self@.format, self@.bits_per_sample as int) {
                Ok(s) => r is Ok && r->Ok_0@ == s,
                Err(k) => r is Err && r->Err_0.kind == k,
            },
    {
        decode_float_samples(SampleType::F32, &self.sample_data, self.format, self.bits_per_sample)
    }

    /// Samples for a 64-bit float destination, held exactly.
    pub fn samples_f64(&self) -> (r: Result<Vec<FloatSample>, WaveDecodeError>)
        ensures
            match float_samples(SampleType::F64, self@.sample_data, self@.format, self@.bits_per_sample as int) {
                Ok(s) => r is Ok && r->Ok_0@ == s,
                Err(k) => r is Err && r->Err_0.kind == k,
            },
    {
        decode_float_samples(SampleType::F64, &self.sample_data, self.format, self.bits_per_sample)
    }

    /// Length in whole seconds: whole frames divided by the sample rate.
    pub fn duration(&self) -> (r: u64)
        requires
            self@.frame_size > 0,
            self@.sample_rate > 0,
        ensures
            r == frame_count(self@) / self@.sample_rate as int,
    {
        (self.sample_data.len() as u64 / self.frame_size as u64) / self.sample_rate as u64
    }
}

pub const RIFF_MAGIC: u32 = 0x46464952;
pub const WAVE_MAGIC: u32 = 0x45564157;
pub const CHUNK_FMT: u32 = 0x20746d66;
pub const CHUNK_FACT: u32 = 0x74636166;
pub const CHUNK_DATA: u32 = 0x61746164;
pub const CHUNK_LIST: u32 = 0x5453494c;
pub const LIST_TYPE_INFO: u32 = 0x4f464e49;

/// Largest input whose length a RIFF header can declare.
pub const MAX_INPUT: u64 = 0x1_0000_0007;

/// How far past the end of the input a chunk walk can leave its position.
pub const SLACK: u64 = 0x1_0000_0010;

/// Reading the body of a `fmt` chunk whose tag ends at `p`: the new state and the
/// position after the fields read.
pub open spec fn fmt_step(b: Seq<u8>, p: int, w: WaveView) -> Result<(WaveView, int), DecodeErrorKind> {
    if !fits(b, p, 4) {
        Err(DecodeErrorKind::TruncatedChunk)
    } else if !(le_u32(b, p) == 16 || le_u32(b, p) == 18 || le_u32(b, p) == 40) {
        Err(DecodeErrorKind::InvalidFormatLength)
    } else if !fits(b, p + 4, 2) {
        Err(DecodeErrorKind::TruncatedChunk)
    } else {
        match format_of_code(le_u16(b, p + 4)) {
            None => Err(DecodeErrorKind::UnknownCodec),
            Some(f) => {
                if !fits(b, p + 6, 14) {
                    Err(DecodeErrorKind::TruncatedChunk)
                } else {
                    let w1 = WaveView {
                        format: f,
                        channels: le_u16(b, p + 6) as u16,
                        sample_rate: le_u32(b, p + 8) as u32,
                        data_rate: le_u32(b, p + 12) as u32,
                        frame_size: le_u16(b, p + 16) as u16,
                        bits_per_sample: le_u16(b, p + 18) as u16,
                        ..w
                    };
                    let q = p + 20;
                    if le_u32(b, p) == 16 {
                        Ok((w1, q))
                    } else if !fits(b, q, 2) {
                        Err(DecodeErrorKind::TruncatedChunk)
                    } else if le_u16(b, q) == 22 {
                        if !fits(b, q + 2, 22) {
                            Err(DecodeErrorKind::TruncatedChunk)
                        } else {
                            Ok((WaveView {
                                valid_bps: Some(le_u16(b, q + 2) as u16),
                                channel_mask: Some(le_u32(b, q + 4) as u32),
                                sub_format: Some(le_u128(b, q + 8) as u128),
                                ..w1
                            }, q + 24))
                        }
                    } else if le_u16(b, q) == 0 || f == WaveFormat::Pcm {
                        Ok((w1, q + 2))
                    } else {
                        Err(DecodeErrorKind::InvalidExtension)
                    }
                }
            },
        }
    }
}

/// A `fact` chunk: its length field is ignored, its sample count kept.
pub open spec fn fact_step(b: Seq<u8>, p: int, w: WaveView) -> Result<(WaveView, int), DecodeErrorKind> {
    if !fits(b, p, 8) {
        Err(DecodeErrorKind::TruncatedChunk)
    } else {
        Ok((WaveView { num_of_samples: Some(le_u32(b, p + 4) as u32), ..w }, p + 8))
    }
}

/// A `data` chunk: its bytes are copied, and one pad byte follows an odd length.
pub open spec fn data_step(b: Seq<u8>, p: int, w: WaveView) -> Result<(WaveView, int), DecodeErrorKind> {
    if !fits(b, p, 4) {
        Err(DecodeErrorKind::TruncatedChunk)
    } else if !fits(b, p + 4, le_u32(b, p)) {
        Err(DecodeErrorKind::TruncatedChunk)
    } else {
        let n = le_u32(b, p);
        Ok((WaveView { sample_data: b.subrange(p + 4, p + 4 + n), ..w }, p + 4 + n + n % 2))
    }
}

/// A `data` chunk of length `n` leaves the container as it was but for its
/// samples, which become the `n` bytes after the length field; when `n` is odd
/// exactly one pad byte follows, so the next chunk tag is read at `p + 4 + n + 1`
/// (at `p + 8` for `n == 3`), and otherwise at `p + 4 + n`.
pub proof fn lemma_data_chunk_padding(b: Seq<u8>, p: int, w: WaveView)
    requires
        fits(b, p, 4),
        fits(b, p + 4, le_u32(b, p)),
    ensures
        data_step(b, p, w) == Ok::<(WaveView, int), DecodeErrorKind>((
            WaveView { sample_data: b.subrange(p + 4, p + 4 + le_u32(b, p)), ..w },
            p + 4 + le_u32(b, p) + (if le_u32(b, p) % 2 == 1 { 1int } else { 0int }),
        )),
{
    lemma_le_u32_range(b, p);
}

/// A chunk that is skipped by its declared length; a skip may run past the end.
pub open spec fn skip_step(b: Seq<u8>, p: int, w: WaveView) -> Result<(WaveView, int), DecodeErrorKind> {
    if !fits(b, p, 4) {
        Err(DecodeErrorKind::TruncatedChunk)
    } else {
        Ok((w, p + 4 + le_u32(b, p)))
    }
}

/// The entries of an `INFO` list from position `q`, `count` of the list's `size`
/// bytes being consumed. Known sub-tags set their field, others are skipped; each
/// entry ending at an odd position is followed by a pad byte. Where no entry
/// header is left, the list (and the input) ends without error.
pub open spec fn info_walk(b: Seq<u8>, q: int, count: int, size: int, m: MetadataView) -> Result<(MetadataView, int), DecodeErrorKind>
    decreases if count < size { size - count } else { 0 }
    via info_walk_decreases
{
    if count >= size {
        Ok((m, q))
    } else if !fits(b, q, 8) {
        Ok((m, b.len() as int))
    } else {
        let n = le_u32(b, q + 4);
        let e = q + 8 + n;
        let next = e + e % 2;
        let count2 = count + 8 + n + e % 2;
        match info_field_of(le_u32(b, q)) {
            Some(f) => {
                if !fits(b, q + 8, n) {
                    Err(DecodeErrorKind::TruncatedChunk)
                } else {
                    if !valid_utf8(b.subrange(q + 8, e)) {
                        Err(DecodeErrorKind::InvalidText)
                    } else {
                        info_walk(b, next, count2, size, with_field(m, f, decode_utf8(b.subrange(q + 8, e))))
                    }
                }
            },
            None => info_walk(b, next, count2, size, m),
        }
    }
}

#[via_fn]
proof fn info_walk_decreases(b: Seq<u8>, q: int, count: int, size: int, m: MetadataView) {
    if count < size && fits(b, q, 8) {
        lemma_le_u32_range(b, q + 4);
    }
}

/// A `LIST` chunk, which must be of type `INFO`.
pub open spec fn list_step(b: Seq<u8>, p: int, w: WaveView) -> Result<(WaveView, int), DecodeErrorKind> {
    if !fits(b, p, 8) {
        Err(DecodeErrorKind::TruncatedChunk)
    } else if le_u32(b, p + 4) != LIST_TYPE_INFO {
        Err(DecodeErrorKind::UnsupportedListType)
    } else {
        match info_walk(b, p + 8, 4, le_u32(b, p), w.metadata) {
            Err(k) => Err(k),
            Ok((m, q)) => Ok((WaveView { metadata: m, ..w }, q)),
        }
    }
}

/// The chunk whose tag is `tag`, its body starting at `p`.
#[verifier::opaque]
pub open spec fn chunk_step(b: Seq<u8>, p: int, tag: int, w: WaveView) -> Result<(WaveView, int), DecodeErrorKind> {
    if tag == CHUNK_FMT {
        fmt_step(b, p, w)
    } else if tag == CHUNK_FACT {
        fact_step(b, p, w)
    } else if tag == CHUNK_DATA {
        data_step(b, p, w)
    } else if tag == CHUNK_LIST {
        list_step(b, p, w)
    } else {
        skip_step(b, p, w)
    }
}

/// `r` reports the step `s`, and `w` is the state it leaves.
pub open spec fn step_result(r: Result<u64, WaveDecodeError>, s: Result<(WaveView, int), DecodeErrorKind>, w: WaveView) -> bool {
    match s {
        Ok((v, q)) => r is Ok && r->Ok_0 as int == q && w == v,
        Err(k) => r is Err && r->Err_0.kind == k,
    }
}

/// Whether `n` bytes can be read at `pos`, without overflow.
fn can_read(b: &Vec<u8>, pos: u64, n: u64) -> (r: bool)
    ensures
        r == fits(b@, pos as int, n as int),
{
    let len = b.len() as u64;
    pos <= len && len - pos >= n
}

fn read_fmt_chunk(b: &Vec<u8>, p: u64, w: &mut WaveFile) -> (r: Result<u64, WaveDecodeError>)
    requires
        p <= b@.len() <= MAX_INPUT,
    ensures
        step_result(r, fmt_step(b@, p as int, old(w)@), final(w)@),
        r is Err ==> *final(w) == *old(w),
{
    let size = match read_u32(b, p) {
        Some(s) => s,
        None => return err(DecodeErrorKind::TruncatedChunk),
    };
    if !(size == 16 || size == 18 || size == 40) {
        return err(DecodeErrorKind::InvalidFormatLength);
    }
    let code = match read_u16(b, p + 4) {
        Some(c) => c,
        None => return err(DecodeErrorKind::TruncatedChunk),
    };
    let format = match WaveFormat::parse(code) {
        Some(f) => f,
        None => return err(DecodeErrorKind::UnknownCodec),
    };
    if !can_read(b, p + 6, 14) {
        return err(DecodeErrorKind::TruncatedChunk);
    }
    let channels = read_u16(b, p + 6).unwrap();
    let sample_rate = read_u32(b, p + 8).unwrap();
    let data_rate = read_u32(b, p + 12).unwrap();
    let frame_size = read_u16(b, p + 16).unwrap();
    let bits_per_sample = read_u16(b, p + 18).unwrap();
    let q = p + 20;
    let mut valid_bps = w.valid_bps;
    let mut channel_mask = w.channel_mask;
    let mut sub_format = w.sub_format;
    let mut end = q;
    if size != 16 {
        let ext = match read_u16(b, q) {
            Some(e) => e,
            None => return err(DecodeErrorKind::TruncatedChunk),
        };
        if ext == 22 {
            if !can_read(b, q + 2, 22) {
                return err(DecodeErrorKind::TruncatedChunk);
            }
            valid_bps = Some(read_u16(b, q + 2).unwrap());
            channel_mask = Some(read_u32(b, q + 4).unwrap());
            sub_format = Some(read_u128(b, q + 8).unwrap());
            end = q + 24;
        } else if ext == 0 || format == WaveFormat::Pcm {
            end = q + 2;
        } else {
            return err(DecodeErrorKind::InvalidExtension);
        }
    }
    w.format = format;
    w.channels = channels;
    w.sample_rate = sample_rate;
    w.data_rate = data_rate;
    w.frame_size = frame_size;
    w.bits_per_sample = bits_per_sample;
    w.valid_bps = valid_bps;
    w.channel_mask = channel_mask;
    w.sub_format = sub_format;
    Ok(end)
}

fn read_fact_chunk(b: &Vec<u8>, p: u64, w: &mut WaveFile) -> (r: Result<u64, WaveDecodeError>)
    requires
        p <= b@.len() <= MAX_INPUT,
    ensures
        step_result(r, fact_step(b@, p as int, old(w)@), final(w)@),
        r is Err ==> *final(w) == *old(w),
{
    if !can_read(b, p, 8) {
        return err(DecodeErrorKind::TruncatedChunk);
    }
    w.num_of_samples = Some(read_u32(b, p + 4).unwrap());
    Ok(p + 8)
}

fn read_data_chunk(b: &Vec<u8>, p: u64, w: &mut WaveFile) -> (r: Result<u64, WaveDecodeError>)
    requires
        p <= b@.len() <= MAX_INPUT,
    ensures
        step_result(r, data_step(b@, p as int, old(w)@), final(w)@),
        r is Err ==> *final(w) == *old(w),
{
    let size = match read_u32(b, p) {
        Some(s) => s,
        None => return err(DecodeErrorKind::TruncatedChunk),
    };
    if !can_read(b, p + 4, size as u64) {
        return err(DecodeErrorKind::TruncatedChunk);
    }
    let _len: usize = b.len();
    w.sample_data = copy_range(b, (p + 4) as usize, size as usize);
    Ok(p + 4 + size as u64 + size as u64 % 2)
}

fn skip_chunk(b: &Vec<u8>, p: u64, w: &WaveFile) -> (r: Result<u64, WaveDecodeError>)
    requires
        p <= b@.len() <= MAX_INPUT,
    ensures
        step_result(r, skip_step(b@, p as int, w@), w@),
{
    match read_u32(b, p) {
        Some(size) => Ok(p + 4 + size as u64),
        None => err(DecodeErrorKind::TruncatedChunk),
    }
}

fn read_info_entries(b: &Vec<u8>, start: u64, size: u32, meta: &mut AudioMetadata) -> (r: Result<u64, WaveDecodeError>)
    requires
        start <= b@.len() <= MAX_INPUT,
    ensures
        match info_walk(b@, start as int, 4, size as int, old(meta)@) {
            Ok((m, q)) => r is Ok && r->Ok_0 as int == q && final(meta)@ == m,
            Err(k) => r is Err && r->Err_0.kind == k,
        },
        r is Ok ==> start <= r->Ok_0 <= b@.len() + SLACK || r->Ok_0 == b@.len(),
{
    let ghost m0 = meta@;
    let ulen: usize = b.len();
    let len = ulen as u64;
    let mut q: u64 = start;
    let mut count: u64 = 4;
    while count < size as u64
        invariant
            len == b@.len() <= MAX_INPUT,
            ulen == b@.len(),
            m0 == old(meta)@,
            start <= q <= len + SLACK,
            count <= size as int + SLACK,
            info_walk(b@, start as int, 4, size as int, m0) == info_walk(b@, q as int, count as int, size as int, meta@),
        decreases if count < size { size - count } else { 0 },
    {
        if !can_read(b, q, 8) {
            return Ok(len);
        }
        let tag = read_u32(b, q).unwrap();
        let n = read_u32(b, q + 4).unwrap();
        let body = q + 8;
        match info_field(tag) {
            Some(f) => {
                if !can_read(b, body, n as u64) {
                    return err(DecodeErrorKind::TruncatedChunk);
                }
                match read_text(b, body as usize, n as usize) {
                    Some(t) => meta.set_field(f, t),
                    None => return err(DecodeErrorKind::InvalidText),
                }
            },
            None => {},
        }
        let e = body + n as u64;
        let pad = e % 2;
        q = e + pad;
        count = count + 8 + n as u64 + pad;
    }
    Ok(q)
}

fn read_list_chunk(b: &Vec<u8>, p: u64, w: &mut WaveFile) -> (r: Result<u64, WaveDecodeError>)
    requires
        p <= b@.len() <= MAX_INPUT,
    ensures
        step_result(r, list_step(b@, p as int, old(w)@), final(w)@),
        r is Ok ==> p <= r->Ok_0 <= b@.len() + SLACK,
        !fits(b@, p as int, 8) || le_u32(b@, p as int + 4) != LIST_TYPE_INFO ==> *final(w) == *old(w),
{
    if !can_read(b, p, 8) {
        return err(DecodeErrorKind::TruncatedChunk);
    }
    let size = read_u32(b, p).unwrap();
    if read_u32(b, p + 4).unwrap() != LIST_TYPE_INFO {
        return err(DecodeErrorKind::UnsupportedListType);
    }
    read_info_entries(b, p + 8, size, &mut w.metadata)
}

proof fn lemma_info_walk_bounds(b: Seq<u8>, q: int, count: int, size: int, m: MetadataView)
    requires
        q <= b.len() + 0x1_0000_0000,
    ensures
        info_walk(b, q, count, size, m) matches Ok((_, e)) ==> (q <= e || e == b.len()) && e <= b.len() + 0x1_0000_0000,
    decreases if count < size { size - count } else { 0 },
{
    if count < size && fits(b, q, 8) {
        lemma_le_u32_range(b, q + 4);
        let n = le_u32(b, q + 4);
        let e = q + 8 + n;
        let next = e + e % 2;
        let count2 = count + 8 + n + e % 2;
        match info_field_of(le_u32(b, q)) {
            Some(f) => {
                if fits(b, q + 8, n) {
                    if valid_utf8(b.subrange(q + 8, e)) {
                        lemma_info_walk_bounds(b, next, count2, size, with_field(m, f, decode_utf8(b.subrange(q + 8, e))));
                    }
                }
            },
            None => lemma_info_walk_bounds(b, next, count2, size, m),
        }
    }
}

/// Every chunk moves the position forward, and at most a declared length past the end.
proof fn lemma_chunk_step_bounds(b: Seq<u8>, p: int, tag: int, w: WaveView)
    requires
        4 <= p <= b.len(),
    ensures
        chunk_step(b, p, tag, w) matches Ok((_, q)) ==> p <= q <= b.len() + SLACK,
{
    reveal(chunk_step);
    if fits(b, p, 4) {
        lemma_le_u32_range(b, p);
    }
    if tag == CHUNK_LIST && fits(b, p, 8) {
        lemma_info_walk_bounds(b, p + 8, 4, le_u32(b, p), w.metadata);
    }
}

/// Walking the top-level chunks from `pos`: the state reached, and whether a
/// `fmt` and a `fact` chunk were read. Where no further chunk tag fits in the
/// input, the walk ends without error.
#[verifier::opaque]
pub open spec fn walk(b: Seq<u8>, pos: int, w: WaveView, has_fmt: bool, has_fact: bool) -> Result<(WaveView, bool, bool), DecodeErrorKind>
    decreases if pos < b.len() { b.len() - pos } else { 0 }
    via walk_decreases
{
    if !fits(b, pos, 4) {
        Ok((w, has_fmt, has_fact))
    } else {
        let tag = le_u32(b, pos);
        match chunk_step(b, pos + 4, tag, w) {
            Err(k) => Err(k),
            Ok((w2, q)) => walk(b, q, w2, has_fmt || tag == CHUNK_FMT, has_fact || tag == CHUNK_FACT),
        }
    }
}

#[via_fn]
proof fn walk_decreases(b: Seq<u8>, pos: int, w: WaveView, has_fmt: bool, has_fact: bool) {
    if fits(b, pos, 4) {
        lemma_chunk_step_bounds(b, pos + 4, le_u32(b, pos), w);
    }
}

proof fn lemma_walk_step(b: Seq<u8>, pos: int, w: WaveView, has_fmt: bool, has_fact: bool)
    requires
        fits(b, pos, 4),
    ensures
        walk(b, pos, w, has_fmt, has_fact) == (match chunk_step(b, pos + 4, le_u32(b, pos), w) {
            Err(k) => Err(k),
            Ok((w2, q)) => walk(b, q, w2, has_fmt || le_u32(b, pos) == CHUNK_FMT, has_fact || le_u32(b, pos) == CHUNK_FACT),
        }),
{
    reveal(walk);
}

proof fn lemma_walk_end(b: Seq<u8>, pos: int, w: WaveView, has_fmt: bool, has_fact: bool)
    requires
        !fits(b, pos, 4),
    ensures
        walk(b, pos, w, has_fmt, has_fact) == Ok::<(WaveView, bool, bool), DecodeErrorKind>((w, has_fmt, has_fact)),
{
    reveal(walk);
}

/// What decoding the input `b` gives: the header is checked, the chunks are
/// walked from offset 12, and the mandatory chunks are checked after the walk.
pub open spec fn decode_spec(b: Seq<u8>) -> Result<WaveView, DecodeErrorKind> {
    if b.len() < 12 || le_u32(b, 0) != RIFF_MAGIC || le_u32(b, 8) != WAVE_MAGIC {
        Err(DecodeErrorKind::InvalidHeader)
    } else if le_u32(b, 4) + 8 != b.len() {
        Err(DecodeErrorKind::SizeMismatch)
    } else {
        match walk(b, 12, initial_view(), false, false) {
            Err(k) => Err(k),
            Ok((w, has_fmt, has_fact)) => {
                if !has_fmt {
                    Err(DecodeErrorKind::MissingFormatChunk)
                } else if w.format != WaveFormat::Pcm && !has_fact {
                    Err(DecodeErrorKind::MissingFactChunk)
                } else {
                    Ok(w)
                }
            },
        }
    }
}

/// Reads the body of the chunk tagged `tag`, which starts at `p`.
fn read_chunk(b: &Vec<u8>, p: u64, tag: u32, w: &mut WaveFile) -> (r: Result<u64, WaveDecodeError>)
    requires
        p <= b@.len() <= MAX_INPUT,
    ensures
        step_result(r, chunk_step(b@, p as int, tag as int, old(w)@), final(w)@),
{
    reveal(chunk_step);
    if tag == CHUNK_FMT {
        read_fmt_chunk(b, p, w)
    } else if tag == CHUNK_FACT {
        read_fact_chunk(b, p, w)
    } else if tag == CHUNK_DATA {
        read_data_chunk(b, p, w)
    } else if tag == CHUNK_LIST {
        read_list_chunk(b, p, w)
    } else {
        skip_chunk(b, p, w)
    }
}

/// `r` reports the decode `d`.
pub open spec fn decode_result(r: Result<WaveFile, WaveDecodeError>, d: Result<WaveView, DecodeErrorKind>) -> bool {
    match d {
        Ok(v) => r is Ok && r->Ok_0@ == v,
        Err(k) => r is Err && r->Err_0.kind == k,
    }
}

/// Reads the chunk at `pos` and says where the walk goes on.
fn walk_chunk(b: &Vec<u8>, pos: u64, w: &mut WaveFile, has_fmt: bool, has_fact: bool) -> (r: Result<(u64, bool, bool), WaveDecodeError>)
    requires
        b@.len() <= MAX_INPUT,
        fits(b@, pos as int, 4),
    ensures
        match r {
            Ok((q, f, fa)) => pos < q <= b@.len() + SLACK
                && walk(b@, pos as int, old(w)@, has_fmt, has_fact) == walk(b@, q as int, final(w)@, f, fa),
            Err(e) => walk(b@, pos as int, old(w)@, has_fmt, has_fact) == Err::<(WaveView, bool, bool), DecodeErrorKind>(e.kind),
        },
{
    let tag = read_u32(b, pos).unwrap();
    let p = pos + 4;
    proof {
        lemma_chunk_step_bounds(b@, p as int, tag as int, w@);
        lemma_walk_step(b@, pos as int, w@, has_fmt, has_fact);
    }
    match read_chunk(b, p, tag, w) {
        Ok(q) => Ok((q, has_fmt || tag == CHUNK_FMT, has_fact || tag == CHUNK_FACT)),
        Err(e) => Err(e),
    }
}

/// Decodes a whole RIFF/WAVE container held in memory.
pub fn decode_wave(b: &Vec<u8>) -> (r: Result<WaveFile, WaveDecodeError>)
    ensures
        decode_result(r, decode_spec(b@)),
{
    let len = b.len() as u64;
    if len < 12 {
        return err(DecodeErrorKind::InvalidHeader);
    }
    let riff = read_u32(b, 0).unwrap();
    let declared = read_u32(b, 4).unwrap();
    let wave = read_u32(b, 8).unwrap();
    if riff != RIFF_MAGIC || wave != WAVE_MAGIC {
        return err(DecodeErrorKind::InvalidHeader);
    }
    if declared as u64 + 8 != len {
        return err(DecodeErrorKind::SizeMismatch);
    }
    let mut w = WaveFile::new();
    let mut pos: u64 = 12;
    let mut has_fmt = false;
    let mut has_fact = false;
    while can_read(b, pos, 4)
        invariant
            len == b@.len() <= MAX_INPUT,
            12 <= pos <= len + SLACK,
            12 <= b@.len(),
            le_u32(b@, 0) == RIFF_MAGIC,
            le_u32(b@, 8) == WAVE_MAGIC,
            le_u32(b@, 4) + 8 == b@.len(),
            walk(b@, 12, initial_view(), false, false) == walk(b@, pos as int, w@, has_fmt, has_fact),
        decreases if pos < len { len - pos } else { 0 },
    {
        match walk_chunk(b, pos, &mut w, has_fmt, has_fact) {
            Ok((q, f, fa)) => {
                pos = q;
                has_fmt = f;
                has_fact = fa;
            },
            Err(e) => return Err(e),
        }
    }
    proof {
        lemma_walk_end(b@, pos as int, w@, has_fmt, has_fact);
    }
    if !has_fmt {
        return err(DecodeErrorKind::MissingFormatChunk);
    }
    if w.format != WaveFormat::Pcm && !has_fact {
        return err(DecodeErrorKind::MissingFactChunk);
    }
    Ok(w)
}

/// A numeric type that samples can be decoded into.
pub trait Sample: Sized {
    /// Every sample of `w` in this type, or the error that stops decoding.
    spec fn decoded(w: WaveView) -> Result<Seq<Self>, DecodeErrorKind>;

    fn read_all(w: &WaveFile) -> (r: Result<Vec<Self>, WaveDecodeError>)
        ensures
            match Self::decoded(w@) {
                Ok(s) => r is Ok && r->Ok_0@ == s,
                Err(k) => r is Err && r->Err_0.kind == k,
            },
    ;
}

/// The integer samples `d` carried into a destination whose values they fit.
pub open spec fn cast_all<T>(d: Result<Seq<int>, DecodeErrorKind>, cast: spec_fn(int) -> T) -> Result<Seq<T>, DecodeErrorKind> {
    match d {
        Ok(s) => Ok(s.map_values(cast)),
        Err(k) => Err(k),
    }
}

impl Sample for u8 {
    open spec fn decoded(w: WaveView) -> Result<Seq<u8>, DecodeErrorKind> {
        cast_all(int_samples(SampleType::U8, w.sample_data, w.format, w.bits_per_sample as int), |v: int| v as u8)
    }

    fn read_all(w: &WaveFile) -> (r: Result<Vec<u8>, WaveDecodeError>) {
        let r = w.samples_u8();
        proof {
            if let Ok(s) = int_samples(SampleType::U8, w@.sample_data, w@.format, w@.bits_per_sample as int) {
                let f = |x: u8| x as int;
                assert forall|j: int| 0 <= j < s.len() implies r->Ok_0@[j] == s.map_values(|v: int| v as u8)[j] by {
                    assert(f(r->Ok_0@[j]) == s[j]);
                }
                assert(r->Ok_0@ =~= s.map_values(|v: int| v as u8));
            }
        }
        r
    }
}

impl Sample for i16 {
    open spec fn decoded(w: WaveView) -> Result<Seq<i16>, DecodeErrorKind> {
        cast_all(int_samples(SampleType::I16, w.sample_data, w.format, w.bits_per_sample as int), |v: int| v as i16)
    }

    fn read_all(w: &WaveFile) -> (r: Result<Vec<i16>, WaveDecodeError>) {
        let r = w.samples_i16();
        proof {
            if let Ok(s) = int_samples(SampleType::I16, w@.sample_data, w@.format, w@.bits_per_sample as int) {
                let f = |x: i16| x as int;
                assert forall|j: int| 0 <= j < s.len() implies r->Ok_0@[j] == s.map_values(|v: int| v as i16)[j] by {
                    assert(f(r->Ok_0@[j]) == s[j]);
                }
                assert(r->Ok_0@ =~= s.map_values(|v: int| v as i16));
            }
        }
        r
    }
}

impl Sample for i32 {
    open spec fn decoded(w: WaveView) -> Result<Seq<i32>, DecodeErrorKind> {
        cast_all(int_samples(SampleType::I32, w.sample_data, w.format, w.bits_per_sample as int), |v: int| v as i32)
    }

    fn read_all(w: &WaveFile) -> (r: Result<Vec<i32>, WaveDecodeError>) {
        let r = w.samples_i32();
        proof {
            if let Ok(s) = int_samples(SampleType::I32, w@.sample_data, w@.format, w@.bits_per_sample as int) {
                let f = |x: i32| x as int;
                assert forall|j: int| 0 <= j < s.len() implies r->Ok_0@[j] == s.map_values(|v: int| v as i32)[j] by {
                    assert(f(r->Ok_0@[j]) == s[j]);
                }
                assert(r->Ok_0@ =~= s.map_values(|v: int| v as i32));
            }
        }
        r
    }
}

impl Sample for i64 {
    open spec fn decoded(w: WaveView) -> Result<Seq<i64>, DecodeErrorKind> {
        cast_all(int_samples(SampleType::I64, w.sample_data, w.format, w.bits_per_sample as int), |v: int| v as i64)
    }

    fn read_all(w: &WaveFile) -> (r: Result<Vec<i64>, WaveDecodeError>) {
        let r = w.samples_i64();
        proof {
            if let Ok(s) = int_samples(SampleType::I64, w@.sample_data, w@.format, w@.bits_per_sample as int) {
                let f = |x: i64| x as int;
                assert forall|j: int| 0 <= j < s.len() implies r->Ok_0@[j] == s.map_values(|v: int| v as i64)[j] by {
                    assert(f(r->Ok_0@[j]) == s[j]);
                }
                assert(r->Ok_0@ =~= s.map_values(|v: int| v as i64));
            }
        }
        r
    }
}

impl WaveFile {
    /// Every sample in the integer type `S`.
    pub fn samples<S: Sample>(&self) -> (r: Result<Vec<S>, WaveDecodeError>)
        ensures
            match S::decoded(self@) {
                Ok(s) => r is Ok && r->Ok_0@ == s,
                Err(k) => r is Err && r->Err_0.kind == k,
            },
    {
        S::read_all(self)
    }
}

/// Samples are a function of the sample bytes, codec and depth alone: two
/// containers that agree on these, such as two decodes of the same input, give
/// the same sequence for every destination.
pub proof fn lemma_samples_deterministic(t: SampleType, a: WaveView, b: WaveView)
    requires
        a.sample_data == b.sample_data,
        a.format == b.format,
        a.bits_per_sample == b.bits_per_sample,
    ensures
        int_samples(t, a.sample_data, a.format, a.bits_per_sample as int)
            == int_samples(t, b.sample_data, b.format, b.bits_per_sample as int),
        float_samples(t, a.sample_data, a.format, a.bits_per_sample as int)
            == float_samples(t, b.sample_data, b.format, b.bits_per_sample as int),
{
}

/// Decodes a container from the bytes it was given.
pub struct WaveReader {
    source: Vec<u8>,
}

impl WaveReader {
    /// The bytes this reader decodes.
    pub closed spec fn input(&self) -> Seq<u8> {
        self.source@
    }

    pub fn new(source: Vec<u8>) -> (r: WaveReader)
        ensures
            r.input() == source@,
    {
        WaveReader { source }
    }

    pub fn decode(&mut self) -> (r: Result<WaveFile, WaveDecodeError>)
        ensures
            final(self).input() == old(self).input(),
            decode_result(r, decode_spec(old(self).input())),
    {
        decode_wave(&self.source)
    }
}

} // verus!
