use vstd::prelude::*;

verus! {

/// Codec tag of a `fmt` chunk. `Unknown` stands for "not read yet".
#[derive(PartialEq, Eq, Structural, Clone, Copy, Debug)]
pub enum WaveFormat {
    Pcm,
    MsADPCM,
    IeeeFloat,
    Alaw,
    Mulaw,
    Aptx,
    DolbyAC2,
    Mpeg1L1L2,
    Mpeg1L3,
    XboxADPCM,
    WaveExt,
    Unknown,
}

/// The codec that a 16-bit format code names, if it is one of the known ones.
pub open spec fn format_of_code(code: int) -> Option<WaveFormat> {
    if code == 0x1 {
        Some(WaveFormat::Pcm)
    } else if code == 0x2 {
        Some(WaveFormat::MsADPCM)
    } else if code == 0x3 {
        Some(WaveFormat::IeeeFloat)
    } else if code == 0x6 {
        Some(WaveFormat::Alaw)
    } else if code == 0x7 {
        Some(WaveFormat::Mulaw)
    } else if code == 0x25 {
        Some(WaveFormat::Aptx)
    } else if code == 0x30 {
        Some(WaveFormat::DolbyAC2)
    } else if code == 0x50 {
        Some(WaveFormat::Mpeg1L1L2)
    } else if code == 0x55 {
        Some(WaveFormat::Mpeg1L3)
    } else if code == 0x69 {
        Some(WaveFormat::XboxADPCM)
    } else if code == 0xfffe {
        Some(WaveFormat::WaveExt)
    } else {
        None
    }
}

/// Human-readable name of a codec.
pub open spec fn format_name(f: WaveFormat) -> Seq<char> {
    match f {
        WaveFormat::Pcm => "PCM"@,
        WaveFormat::MsADPCM => "MS ADPCM"@,
        WaveFormat::IeeeFloat => "IEEE FLOAT"@,
        WaveFormat::Alaw => "ALAW"@,
        WaveFormat::Mulaw => "MULAW"@,
        WaveFormat::Aptx => "APTX"@,
        WaveFormat::DolbyAC2 => "DOLBY AC2"@,
        WaveFormat::Mpeg1L1L2 => "MPEG-1 Layer I, II"@,
        WaveFormat::Mpeg1L3 => "MPEG-1 Layer III (MP3)"@,
        WaveFormat::XboxADPCM => "Xbox ADPCM"@,
        WaveFormat::WaveExt => "WAVE EXTENSIBLE"@,
        WaveFormat::Unknown => "NONE"@,
    }
}

impl WaveFormat {
    pub fn stringify(&self) -> (r: String)
        ensures
            r@ == format_name(*self),
    {
        let s: &str = match *self {
            WaveFormat::Pcm => "PCM",
            WaveFormat::MsADPCM => "MS ADPCM",
            WaveFormat::IeeeFloat => "IEEE FLOAT",
            WaveFormat::Alaw => "ALAW",
            WaveFormat::Mulaw => "MULAW",
            WaveFormat::Aptx => "APTX",
            WaveFormat::DolbyAC2 => "DOLBY AC2",
            WaveFormat::Mpeg1L1L2 => "MPEG-1 Layer I, II",
            WaveFormat::Mpeg1L3 => "MPEG-1 Layer III (MP3)",
            WaveFormat::XboxADPCM => "Xbox ADPCM",
            WaveFormat::WaveExt => "WAVE EXTENSIBLE",
            WaveFormat::Unknown => "NONE",
        };
        s.to_owned()
    }

    /// Looks up the codec of a format code; unknown codes give `None`.
    pub fn parse(val: u16) -> (r: Option<WaveFormat>)
        ensures
            r == format_of_code(val as int),
    {
        match val {
            0x1 => Some(WaveFormat::Pcm),
            0x2 => Some(WaveFormat::MsADPCM),
            0x3 => Some(WaveFormat::IeeeFloat),
            0x6 => Some(WaveFormat::Alaw),
            0x7 => Some(WaveFormat::Mulaw),
            0x25 => Some(WaveFormat::Aptx),
            0x30 => Some(WaveFormat::DolbyAC2),
            0x50 => Some(WaveFormat::Mpeg1L1L2),
            0x55 => Some(WaveFormat::Mpeg1L3),
            0x69 => Some(WaveFormat::XboxADPCM),
            0xfffe => Some(WaveFormat::WaveExt),
            _ => None,
        }
    }
}

} // verus!
