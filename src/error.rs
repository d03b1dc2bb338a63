use vstd::prelude::*;

verus! {

/// The rule that a failed decode broke.
#[derive(PartialEq, Eq, Structural, Clone, Copy, Debug)]
pub enum DecodeErrorKind {
    InvalidHeader,
    SizeMismatch,
    MissingFormatChunk,
    MissingFactChunk,
    InvalidFormatLength,
    UnknownCodec,
    InvalidExtension,
    UnsupportedListType,
    TruncatedChunk,
    InvalidText,
    UnsupportedBitDepth,
    UnsupportedCodec,
    IncompatibleDestination,
}

#[derive(PartialEq, Eq, Structural, Clone, Copy, Debug)]
pub struct WaveDecodeError {
    pub kind: DecodeErrorKind,
}

pub open spec fn error_text(k: DecodeErrorKind) -> Seq<char> {
    match k {
        DecodeErrorKind::InvalidHeader => "invalid RIFF WAVE header"@,
        DecodeErrorKind::SizeMismatch => "declared size differs from the input length"@,
        DecodeErrorKind::MissingFormatChunk => "no fmt chunk"@,
        DecodeErrorKind::MissingFactChunk => "no fact chunk for a non-PCM codec"@,
        DecodeErrorKind::InvalidFormatLength => "unexpected fmt chunk length"@,
        DecodeErrorKind::UnknownCodec => "unknown codec"@,
        DecodeErrorKind::InvalidExtension => "invalid fmt extension size"@,
        DecodeErrorKind::UnsupportedListType => "unsupported LIST type"@,
        DecodeErrorKind::TruncatedChunk => "chunk runs past the end of the input"@,
        DecodeErrorKind::InvalidText => "metadata text is not UTF-8"@,
        DecodeErrorKind::UnsupportedBitDepth => "unsupported bit depth for this sample type"@,
        DecodeErrorKind::UnsupportedCodec => "codec samples cannot be decoded"@,
        DecodeErrorKind::IncompatibleDestination => "floating-point samples need a floating-point type"@,
    }
}

/// A failed result carrying an error of kind `k`.
pub fn err<T>(k: DecodeErrorKind) -> (r: Result<T, WaveDecodeError>)
    ensures
        r is Err && r->Err_0.kind == k,
{
    Err(WaveDecodeError { kind: k })
}

impl WaveDecodeError {
    pub fn new(kind: DecodeErrorKind) -> (r: WaveDecodeError)
        ensures
            r.kind == kind,
    {
        WaveDecodeError { kind }
    }

    /// A short description of the error.
    pub fn message(&self) -> (r: String)
        ensures
            r@ == error_text(self.kind),
    {
        let s: &str = match self.kind {
            DecodeErrorKind::InvalidHeader => "invalid RIFF WAVE header",
            DecodeErrorKind::SizeMismatch => "declared size differs from the input length",
            DecodeErrorKind::MissingFormatChunk => "no fmt chunk",
            DecodeErrorKind::MissingFactChunk => "no fact chunk for a non-PCM codec",
            DecodeErrorKind::InvalidFormatLength => "unexpected fmt chunk length",
            DecodeErrorKind::UnknownCodec => "unknown codec",
            DecodeErrorKind::InvalidExtension => "invalid fmt extension size",
            DecodeErrorKind::UnsupportedListType => "unsupported LIST type",
            DecodeErrorKind::TruncatedChunk => "chunk runs past the end of the input",
            DecodeErrorKind::InvalidText => "metadata text is not UTF-8",
            DecodeErrorKind::UnsupportedBitDepth => "unsupported bit depth for this sample type",
            DecodeErrorKind::UnsupportedCodec => "codec samples cannot be decoded",
            DecodeErrorKind::IncompatibleDestination => "floating-point samples need a floating-point type",
        };
        s.to_owned()
    }
}

} // verus!
