use wavefile::bytes::{
    read_i16_be, read_i24, read_i24_be, read_i32_be, read_i64_be, read_u16_be, read_u24_be, read_u32_be, read_u64_be,
};
use wavefile::{
    decode_wave, map_i16_to_i32, map_i16_to_i64, map_i24_to_i32, map_i24_to_i64, map_i32_to_i64, map_u8_to_i16,
    map_u8_to_i32, map_u8_to_i64, read_float_sample, read_i16_sample, read_i32_sample, read_i64_sample,
    read_u8_sample, DecodeErrorKind, FloatSample, SampleType, WaveFormat, WaveReader,
};

fn chunk(tag: &[u8; 4], body: &[u8]) -> Vec<u8> {
    let mut c = tag.to_vec();
    c.extend_from_slice(&(body.len() as u32).to_le_bytes());
    c.extend_from_slice(body);
    if body.len() % 2 == 1 {
        c.push(0);
    }
    c
}

fn riff(chunks: &[Vec<u8>]) -> Vec<u8> {
    let body: Vec<u8> = chunks.concat();
    let mut r = b"RIFF".to_vec();
    r.extend_from_slice(&(body.len() as u32 + 4).to_le_bytes());
    r.extend_from_slice(b"WAVE");
    r.extend_from_slice(&body);
    r
}

fn fmt_body(code: u16, channels: u16, rate: u32, bits: u16) -> Vec<u8> {
    let frame = channels * (bits / 8);
    let mut f = Vec::new();
    f.extend_from_slice(&code.to_le_bytes());
    f.extend_from_slice(&channels.to_le_bytes());
    f.extend_from_slice(&rate.to_le_bytes());
    f.extend_from_slice(&(rate * frame as u32).to_le_bytes());
    f.extend_from_slice(&frame.to_le_bytes());
    f.extend_from_slice(&bits.to_le_bytes());
    f
}

fn pcm16_file(data: &[u8]) -> Vec<u8> {
    riff(&[chunk(b"fmt ", &fmt_body(1, 2, 4, 16)), chunk(b"data", data)])
}

fn kind_of<T: std::fmt::Debug>(r: Result<T, wavefile::WaveDecodeError>) -> DecodeErrorKind {
    r.unwrap_err().kind
}

#[test]
fn decodes_pcm_container_fields() {
    let w = decode_wave(&pcm16_file(&[0, 0, 1, 0, 2, 0, 3, 0, 4, 0, 5, 0, 6, 0, 7, 0])).unwrap();
    assert_eq!(w.format, WaveFormat::Pcm);
    assert_eq!(w.channels, 2);
    assert_eq!(w.sample_rate, 4);
    assert_eq!(w.data_rate, 16);
    assert_eq!(w.bits_per_sample, 16);
    assert_eq!(w.frame_size(), 4);
    assert_eq!(w.num_of_samples, None);
    assert_eq!(w.num_of_samples(), 8);
    assert_eq!(w.duration(), 1);
    assert_eq!(w.sample_data().len(), 16);
    assert_eq!(w.samples_i16().unwrap(), vec![0, 1, 2, 3, 4, 5, 6, 7]);
}

#[test]
fn reader_decodes_its_input() {
    let mut r = WaveReader::new(pcm16_file(&[1, 0]));
    assert_eq!(r.decode().unwrap().samples_i16().unwrap(), vec![1]);
}

#[test]
fn twenty_four_bit_sign_extension() {
    assert_eq!(read_i24(&vec![0x00, 0x00, 0x80], 0), Some(-8388608));
    assert_eq!(read_i24(&vec![0xFF, 0xFF, 0x7F], 0), Some(8388607));
    assert_eq!(read_i24(&vec![0xFF, 0xFF, 0xFF], 0), Some(-1));
    assert_eq!(read_i24(&vec![0xFF, 0xFF], 0), None);
}

#[test]
fn extremes_map_to_extremes() {
    assert_eq!(map_u8_to_i16(0), i16::MIN);
    assert_eq!(map_u8_to_i16(255), i16::MAX);
    assert_eq!(map_u8_to_i32(0), i32::MIN);
    assert_eq!(map_u8_to_i32(255), i32::MAX);
    assert_eq!(map_u8_to_i64(0), i64::MIN);
    assert_eq!(map_u8_to_i64(255), i64::MAX);
    assert_eq!(map_i16_to_i32(i16::MIN), i32::MIN);
    assert_eq!(map_i16_to_i32(i16::MAX), i32::MAX);
    assert_eq!(map_i16_to_i64(i16::MIN), i64::MIN);
    assert_eq!(map_i16_to_i64(i16::MAX), i64::MAX);
    assert_eq!(map_i24_to_i32(-8388608), i32::MIN);
    assert_eq!(map_i24_to_i32(8388607), i32::MAX);
    assert_eq!(map_i24_to_i64(-8388608), i64::MIN);
    assert_eq!(map_i24_to_i64(8388607), i64::MAX);
    assert_eq!(map_i32_to_i64(i32::MIN), i64::MIN);
    assert_eq!(map_i32_to_i64(i32::MAX), i64::MAX);
}

#[test]
fn rescaling_is_exact_and_asymmetric() {
    // Negative half scales by 32768 / 128 = 256, positive half by 32767 / 127.
    assert_eq!(map_u8_to_i16(127), -256);
    assert_eq!(map_u8_to_i16(129), 258);
    assert_eq!(map_u8_to_i16(128), 0);
    assert_eq!(map_i16_to_i32(-1), -65536);
    assert_eq!(map_i16_to_i32(1), 65538);
    assert_eq!(map_i24_to_i32(1), 256);
    assert_eq!(map_i32_to_i64(1), 4294967298);
}

#[test]
fn sign_preserved_across_destinations() {
    // 16-bit -1 and +1, then the extremes.
    let b = vec![0xFF, 0xFF, 0x01, 0x00, 0x00, 0x80, 0xFF, 0x7F];
    for (pos, negative) in [(0u64, true), (2, false)] {
        let v32 = read_i32_sample(&b, pos, WaveFormat::Pcm, 16).unwrap();
        let v64 = read_i64_sample(&b, pos, WaveFormat::Pcm, 16).unwrap();
        let v16 = read_i16_sample(&b, pos, WaveFormat::Pcm, 16).unwrap();
        assert_eq!(v16 < 0, negative);
        assert_eq!(v32 < 0, negative);
        assert_eq!(v64 < 0, negative);
        match read_float_sample(SampleType::F32, &b, pos, WaveFormat::Pcm, 16).unwrap() {
            FloatSample::Ratio { num, .. } => assert_eq!(num < 0, negative),
            other => panic!("unexpected {:?}", other),
        }
    }
    assert_eq!(read_i32_sample(&b, 4, WaveFormat::Pcm, 16).unwrap(), i32::MIN);
    assert_eq!(read_i64_sample(&b, 6, WaveFormat::Pcm, 16).unwrap(), i64::MAX);
    assert_eq!(
        read_float_sample(SampleType::F64, &b, 4, WaveFormat::Pcm, 16).unwrap(),
        FloatSample::Ratio { num: -32768, den: 32768 }
    );
    assert_eq!(
        read_float_sample(SampleType::F64, &b, 6, WaveFormat::Pcm, 16).unwrap(),
        FloatSample::Ratio { num: 32767, den: 32767 }
    );
    let low = vec![0x00, 0x00, 0x80];
    assert_eq!(read_i32_sample(&low, 0, WaveFormat::Pcm, 24).unwrap(), i32::MIN);
    assert_eq!(read_i64_sample(&low, 0, WaveFormat::Pcm, 24).unwrap(), i64::MIN);
}

#[test]
fn zero_samples_decode_to_zero() {
    let zeros = vec![0u8; 8];
    assert_eq!(read_i16_sample(&zeros, 0, WaveFormat::Pcm, 16).unwrap(), 0);
    assert_eq!(read_i32_sample(&zeros, 0, WaveFormat::Pcm, 24).unwrap(), 0);
    assert_eq!(read_i32_sample(&zeros, 0, WaveFormat::Pcm, 32).unwrap(), 0);
    assert_eq!(read_i64_sample(&zeros, 0, WaveFormat::Pcm, 64).unwrap(), 0);
    assert_eq!(
        read_float_sample(SampleType::F64, &zeros, 0, WaveFormat::Pcm, 64).unwrap(),
        FloatSample::Ratio { num: 0, den: 9223372036854775807 }
    );
    let mid = vec![0x80u8];
    assert_eq!(read_u8_sample(&mid, 0, WaveFormat::Pcm, 8).unwrap(), 128);
    assert_eq!(read_i16_sample(&mid, 0, WaveFormat::Pcm, 8).unwrap(), 0);
    assert_eq!(read_i64_sample(&mid, 0, WaveFormat::Pcm, 8).unwrap(), 0);
}

#[test]
fn decoding_twice_gives_the_same_samples() {
    let file = pcm16_file(&[1, 2, 3, 4, 5, 6, 7, 8]);
    let a = decode_wave(&file).unwrap();
    let b = decode_wave(&file).unwrap();
    assert_eq!(a.samples_i16().unwrap(), b.samples_i16().unwrap());
    assert_eq!(a.samples_i32().unwrap(), a.samples_i32().unwrap());
    assert_eq!(a.samples_f64().unwrap(), b.samples_f64().unwrap());
}

#[test]
fn odd_data_chunk_is_padded() {
    let mut body = chunk(b"fmt ", &fmt_body(1, 1, 8000, 8));
    body.extend_from_slice(b"data");
    body.extend_from_slice(&3u32.to_le_bytes());
    body.extend_from_slice(&[10, 20, 30]);
    body.push(0xEE); // pad byte
    body.extend_from_slice(&chunk(b"LIST", &[b"INFO".as_slice(), &chunk(b"INAM", b"ab")].concat()));
    let w = decode_wave(&riff(&[body])).unwrap();
    assert_eq!(w.sample_data(), &vec![10, 20, 30]);
    assert_eq!(w.metadata.name, Some("ab".to_string()));
    assert_eq!(w.samples_u8().unwrap(), vec![10, 20, 30]);
}

fn float_file() -> Vec<u8> {
    let mut data = 1.0f32.to_le_bytes().to_vec();
    data.extend_from_slice(&(-1.0f32).to_le_bytes());
    riff(&[
        chunk(b"fmt ", &fmt_body(3, 1, 16000, 32)),
        chunk(b"fact", &2u32.to_le_bytes()),
        chunk(b"data", &data),
    ])
}

#[test]
fn ieee_float_container() {
    let w = decode_wave(&float_file()).unwrap();
    assert_eq!(w.format, WaveFormat::IeeeFloat);
    assert_eq!(w.num_of_samples, Some(2));
    assert_eq!(w.num_of_samples(), 2);
    let s = w.samples_f32().unwrap();
    let values: Vec<f32> = s
        .iter()
        .map(|x| match x {
            FloatSample::Bits32(b) => f32::from_bits(*b),
            other => panic!("unexpected {:?}", other),
        })
        .collect();
    assert_eq!(values, vec![1.0, -1.0]);
    assert_eq!(kind_of(w.samples_i16()), DecodeErrorKind::IncompatibleDestination);
    assert_eq!(kind_of(w.samples_u8()), DecodeErrorKind::IncompatibleDestination);
}

#[test]
fn missing_format_chunk() {
    let file = riff(&[chunk(b"data", &[0, 0])]);
    assert_eq!(kind_of(decode_wave(&file)), DecodeErrorKind::MissingFormatChunk);
}

#[test]
fn info_name_is_read() {
    let list = [b"INFO".as_slice(), &chunk(b"INAM", b"Test")].concat();
    let file = riff(&[chunk(b"fmt ", &fmt_body(1, 1, 8000, 16)), chunk(b"LIST", &list), chunk(b"data", &[])]);
    let w = decode_wave(&file).unwrap();
    assert_eq!(w.metadata.name, Some("Test".to_string()));
    assert_eq!(w.metadata.artist, None);
}

#[test]
fn info_fields_and_unknown_sub_tags() {
    let list = [
        b"INFO".as_slice(),
        &chunk(b"IART", b"Someone"),
        &chunk(b"IXYZ", b"skip"),
        &chunk(b"ISFT", b"enc"),
        &chunk(b"IART", b"Other"),
    ]
    .concat();
    let file = riff(&[chunk(b"fmt ", &fmt_body(1, 1, 8000, 16)), chunk(b"LIST", &list)]);
    let w = decode_wave(&file).unwrap();
    assert_eq!(w.metadata.artist, Some("Other".to_string()));
    assert_eq!(w.metadata.encoder, Some("enc".to_string()));
    assert_eq!(w.metadata.title, None);
}

#[test]
fn unknown_chunks_are_skipped() {
    let file = riff(&[chunk(b"junk", &[1, 2, 3, 4]), chunk(b"fmt ", &fmt_body(1, 1, 8000, 16)), chunk(b"id3 ", &[9; 6]), chunk(b"data", &[5, 0])]);
    let w = decode_wave(&file).unwrap();
    assert_eq!(w.samples_i16().unwrap(), vec![5]);
}

#[test]
fn extensible_format_fields() {
    let mut f = fmt_body(0xFFFE, 2, 44100, 16);
    f.extend_from_slice(&22u16.to_le_bytes());
    f.extend_from_slice(&16u16.to_le_bytes());
    f.extend_from_slice(&3u32.to_le_bytes());
    f.extend_from_slice(&[1, 0, 0, 0, 0, 0, 0x10, 0, 0x80, 0, 0, 0xAA, 0, 0x38, 0x9B, 0x71]);
    let file = riff(&[chunk(b"fmt ", &f), chunk(b"fact", &7u32.to_le_bytes()), chunk(b"data", &[])]);
    let w = decode_wave(&file).unwrap();
    assert_eq!(w.format, WaveFormat::WaveExt);
    assert_eq!(w.valid_bps, Some(16));
    assert_eq!(w.channel_mask, Some(3));
    assert_eq!(w.sub_format, Some(0x719B3800AA000080001000000000_0001u128));
    assert_eq!(w.num_of_samples(), 7);
}

#[test]
fn header_errors() {
    assert_eq!(kind_of(decode_wave(&vec![0u8; 5])), DecodeErrorKind::InvalidHeader);
    let mut bad = pcm16_file(&[0, 0]);
    bad[8] = b'X';
    assert_eq!(kind_of(decode_wave(&bad)), DecodeErrorKind::InvalidHeader);
    let mut long = pcm16_file(&[0, 0]);
    long.push(0);
    assert_eq!(kind_of(decode_wave(&long)), DecodeErrorKind::SizeMismatch);
}

#[test]
fn format_chunk_errors() {
    let bad_len = riff(&[chunk(b"fmt ", &[fmt_body(1, 1, 8000, 16), vec![0; 4]].concat())]);
    assert_eq!(kind_of(decode_wave(&bad_len)), DecodeErrorKind::InvalidFormatLength);
    let unknown = riff(&[chunk(b"fmt ", &fmt_body(0x1234, 1, 8000, 16))]);
    assert_eq!(kind_of(decode_wave(&unknown)), DecodeErrorKind::UnknownCodec);
    let mut ext = fmt_body(2, 1, 8000, 4);
    ext.extend_from_slice(&5u16.to_le_bytes());
    let bad_ext = riff(&[chunk(b"fmt ", &ext), chunk(b"fact", &0u32.to_le_bytes())]);
    assert_eq!(kind_of(decode_wave(&bad_ext)), DecodeErrorKind::InvalidExtension);
    let mut pcm_ext = fmt_body(1, 1, 8000, 16);
    pcm_ext.extend_from_slice(&5u16.to_le_bytes());
    assert!(decode_wave(&riff(&[chunk(b"fmt ", &pcm_ext)])).is_ok());
}

#[test]
fn missing_fact_chunk() {
    let file = riff(&[chunk(b"fmt ", &fmt_body(6, 1, 8000, 8)), chunk(b"data", &[1])]);
    assert_eq!(kind_of(decode_wave(&file)), DecodeErrorKind::MissingFactChunk);
}

#[test]
fn list_errors() {
    let adtl = riff(&[chunk(b"fmt ", &fmt_body(1, 1, 8000, 16)), chunk(b"LIST", b"adtl")]);
    assert_eq!(kind_of(decode_wave(&adtl)), DecodeErrorKind::UnsupportedListType);
    let list = [b"INFO".as_slice(), &chunk(b"INAM", &[0xFF, 0xFE])].concat();
    let bad_text = riff(&[chunk(b"fmt ", &fmt_body(1, 1, 8000, 16)), chunk(b"LIST", &list)]);
    assert_eq!(kind_of(decode_wave(&bad_text)), DecodeErrorKind::InvalidText);
}

#[test]
fn truncated_data_chunk() {
    let mut body = chunk(b"fmt ", &fmt_body(1, 1, 8000, 16));
    body.extend_from_slice(b"data");
    body.extend_from_slice(&100u32.to_le_bytes());
    body.extend_from_slice(&[1, 2]);
    assert_eq!(kind_of(decode_wave(&riff(&[body]))), DecodeErrorKind::TruncatedChunk);
}

#[test]
fn trailing_bytes_after_last_chunk_end_the_walk() {
    let mut body = chunk(b"fmt ", &fmt_body(1, 1, 8000, 16));
    body.extend_from_slice(&[1, 2]);
    assert!(decode_wave(&riff(&[body])).is_ok());
}

#[test]
fn sample_errors() {
    let b = vec![0u8; 8];
    assert_eq!(kind_of(read_u8_sample(&b, 0, WaveFormat::Pcm, 16)), DecodeErrorKind::UnsupportedBitDepth);
    assert_eq!(kind_of(read_i16_sample(&b, 0, WaveFormat::Pcm, 12)), DecodeErrorKind::UnsupportedBitDepth);
    assert_eq!(kind_of(read_i16_sample(&b, 0, WaveFormat::Alaw, 8)), DecodeErrorKind::UnsupportedCodec);
    assert_eq!(kind_of(read_i32_sample(&b, 0, WaveFormat::IeeeFloat, 32)), DecodeErrorKind::IncompatibleDestination);
    assert_eq!(kind_of(read_float_sample(SampleType::F32, &b, 0, WaveFormat::IeeeFloat, 64)), DecodeErrorKind::UnsupportedBitDepth);
    assert_eq!(kind_of(read_i64_sample(&b, 4, WaveFormat::Pcm, 64)), DecodeErrorKind::TruncatedChunk);
    assert_eq!(
        read_float_sample(SampleType::F64, &b, 0, WaveFormat::IeeeFloat, 64).unwrap(),
        FloatSample::Bits64(0)
    );
}

#[test]
fn partial_trailing_sample_is_dropped() {
    let w = decode_wave(&pcm16_file(&[1, 0, 2])).unwrap();
    assert_eq!(w.samples_i16().unwrap(), vec![1]);
}

#[test]
fn format_names() {
    assert_eq!(WaveFormat::Pcm.stringify(), "PCM");
    assert_eq!(WaveFormat::Mpeg1L3.stringify(), "MPEG-1 Layer III (MP3)");
    assert_eq!(WaveFormat::parse(0x55), Some(WaveFormat::Mpeg1L3));
    assert_eq!(WaveFormat::parse(0x4), None);
}

#[test]
fn generic_samples_match_the_typed_ones() {
    let w = decode_wave(&pcm16_file(&[0x00, 0x80, 0xFF, 0x7F])).unwrap();
    assert_eq!(w.samples::<i16>().unwrap(), vec![i16::MIN, i16::MAX]);
    assert_eq!(w.samples::<i32>().unwrap(), vec![i32::MIN, i32::MAX]);
    assert_eq!(w.samples::<i64>().unwrap(), w.samples_i64().unwrap());
    assert_eq!(kind_of(w.samples::<u8>()), DecodeErrorKind::UnsupportedBitDepth);
}

#[test]
fn unknown_codec_is_reported_before_the_rest_of_the_fmt_fields() {
    let mut body = b"fmt ".to_vec();
    body.extend_from_slice(&[16, 0, 0, 0, 4, 0]);
    assert_eq!(kind_of(decode_wave(&riff(&[body]))), DecodeErrorKind::UnknownCodec);
    let mut short = b"fmt ".to_vec();
    short.extend_from_slice(&[16, 0, 0, 0, 1, 0, 1]);
    assert_eq!(kind_of(decode_wave(&riff(&[short]))), DecodeErrorKind::TruncatedChunk);
}

#[test]
fn big_endian_reads() {
    assert_eq!(read_i24_be(&vec![0x80, 0x00, 0x00], 0), Some(-8388608));
    assert_eq!(read_i24_be(&vec![0x7F, 0xFF, 0xFF], 0), Some(8388607));
    assert_eq!(read_i24_be(&vec![0xFF, 0xFF, 0xFE], 0), Some(-2));
    assert_eq!(read_u16_be(&vec![0x12, 0x34], 0), Some(0x1234));
    assert_eq!(read_u24_be(&vec![0x12, 0x34, 0x56], 0), Some(0x123456));
    assert_eq!(read_u32_be(&vec![0x12, 0x34, 0x56, 0x78], 0), Some(0x12345678));
    assert_eq!(read_u64_be(&vec![1, 2, 3, 4, 5, 6, 7, 8], 0), Some(0x0102030405060708));
    assert_eq!(read_i16_be(&vec![0xFF, 0xFE], 0), Some(-2));
    assert_eq!(read_i32_be(&vec![0x80, 0, 0, 0], 0), Some(i32::MIN));
    assert_eq!(read_i64_be(&vec![0xFF; 8], 0), Some(-1));
    assert_eq!(read_u32_be(&vec![1, 2, 3], 0), None);
}

#[test]
fn zero_sequence_decodes_to_midpoints() {
    let w = decode_wave(&pcm16_file(&[0u8; 8])).unwrap();
    assert_eq!(w.samples_i16().unwrap(), vec![0; 4]);
    assert_eq!(w.samples_i64().unwrap(), vec![0; 4]);
    assert!(w
        .samples_f32()
        .unwrap()
        .iter()
        .all(|s| matches!(s, FloatSample::Ratio { num: 0, .. })));
    let eight = riff(&[chunk(b"fmt ", &fmt_body(1, 1, 8000, 8)), chunk(b"data", &[0x80; 4])]);
    let w8 = decode_wave(&eight).unwrap();
    assert_eq!(w8.samples_u8().unwrap(), vec![128; 4]);
    assert_eq!(w8.samples_i32().unwrap(), vec![0; 4]);
}
