//! Audio files: which codec a file name asks for, and the frame counts
//! derived from sample counts.
use vstd::prelude::*;

verus! {

/// Codec of an audio file.
#[derive(Clone, Copy, PartialEq, Eq, Structural, Debug)]
pub enum AudioFormat {
    Wav,
    Mp3,
}

/// Why a file could not be loaded.
#[derive(Clone, Copy, PartialEq, Eq, Structural, Debug)]
pub enum LoadError {
    /// The path has no extension, or one that is not a known codec.
    FileNotFound,
}

/// The codec named by a file extension (its bytes): `wav` or `mp3` in
/// ASCII.
pub open spec fn format_of(ext: Seq<u8>) -> Option<AudioFormat> {
    if ext == seq![0x77u8, 0x61u8, 0x76u8] {
        Some(AudioFormat::Wav)
    } else if ext == seq![0x6du8, 0x70u8, 0x33u8] {
        Some(AudioFormat::Mp3)
    } else {
        None
    }
}

fn bytes_eq3(ext: &[u8], a: u8, b: u8, c: u8) -> (r: bool)
    ensures
        r == (ext@ == seq![a, b, c]),
{
    if ext.len() != 3 {
        assert(ext@.len() != seq![a, b, c].len());
        return false;
    }
    let r = ext[0] == a && ext[1] == b && ext[2] == c;
    if r {
        assert(ext@ =~= seq![a, b, c]);
    }
    r
}

/// The codec named by the bytes of a file extension, if any.
pub fn format_of_extension(ext: &[u8]) -> (r: Option<AudioFormat>)
    ensures
        r == format_of(ext@),
{
    if bytes_eq3(ext, 0x77u8, 0x61u8, 0x76u8) {
        Some(AudioFormat::Wav)
    } else if bytes_eq3(ext, 0x6du8, 0x70u8, 0x33u8) {
        Some(AudioFormat::Mp3)
    } else {
        None
    }
}

/// The codec to load a file with, from its extension (`None` when the path
/// has none).
pub fn load_format(ext: Option<&[u8]>) -> (r: Result<AudioFormat, LoadError>)
    ensures
        match ext {
            None => r == Err::<AudioFormat, LoadError>(LoadError::FileNotFound),
            Some(e) => match format_of(e@) {
                Some(f) => r == Ok::<AudioFormat, LoadError>(f),
                None => r == Err::<AudioFormat, LoadError>(LoadError::FileNotFound),
            },
        },
{
    match ext {
        None => Err(LoadError::FileNotFound),
        Some(e) => match format_of_extension(e) {
            Some(f) => Ok(f),
            None => Err(LoadError::FileNotFound),
        },
    }
}

/// Length in frames of a WAV file whose reader reports `duration`, divided
/// by the channel count.
pub fn wav_duration(duration: u32, channels: u16) -> (r: u32)
    requires
        channels > 0,
    ensures
        r == duration / (channels as u32),
{
    duration / channels as u32
}

/// Length in frames of decoded MP3 audio of `n_samples` interleaved samples.
/// The sample count is taken modulo 2^32, as a `u32`.
pub fn mp3_duration(n_samples: usize, channels: u16) -> (r: u32)
    requires
        channels > 0,
    ensures
        r == (n_samples as u32) / (channels as u32),
{
    n_samples as u32 / channels as u32
}

/// Frames of `n_samples` interleaved samples of `channels` channels, rounded
/// down (the size reserved for the mono MP3 export).
pub fn frames_in(n_samples: usize, channels: u16) -> (r: usize)
    requires
        channels > 0,
    ensures
        r == n_samples / (channels as usize),
{
    n_samples / channels as usize
}

} // verus!
