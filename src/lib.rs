//! Decoding of RIFF/WAVE audio containers held in memory: the format
//! description, `LIST`/`INFO` metadata and raw sample bytes, and the conversion
//! of those bytes into integer or exact floating-point sample values.

pub mod bytes;
pub mod error;
pub mod format;
pub mod math;
pub mod metadata;
pub mod samples;
pub mod wave;

pub use error::{DecodeErrorKind, WaveDecodeError};
pub use format::WaveFormat;
pub use math::{
    map_i16_to_i32, map_i16_to_i64, map_i24_to_i32, map_i24_to_i64, map_i32_to_i64, map_u8_to_i16, map_u8_to_i32,
    map_u8_to_i64,
};
pub use metadata::{AudioMetadata, InfoField};
pub use samples::{
    read_float_sample, read_i16_sample, read_i32_sample, read_i64_sample, read_u8_sample, unit_ratio, FloatSample, SampleType,
};
pub use wave::{decode_wave, Sample, WaveFile, WaveReader};
