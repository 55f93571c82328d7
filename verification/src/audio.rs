//! Audio output settings and errors: the volume ramp, the supported sound
//! formats and the errors of the audio subsystem.

use vstd::prelude::*;

use crate::text::{concat, concat3, format_decimal, decimal};
use crate::time::{duration_debug_text, Duration, NANOS_PER_SEC};

verus! {

/// Shortest linear ramp, in nanoseconds (2 s).
pub const MIN_RAMP_NANOS: u128 = 2_000_000_000;

/// Longest linear ramp, in nanoseconds (10 s).
pub const MAX_RAMP_NANOS: u128 = 10_000_000_000;

/// Largest sound file accepted for registration (5 MiB).
pub const MAX_CUSTOM_SOUND_BYTES: usize = 5_242_880;

/// Errors raised by the audio output subsystem.
#[derive(Debug)]
pub enum AudioError {
    /// Ramp duration outside the range of 2 to 10 seconds.
    InvalidRamp(Duration),
    /// No audio output device is available on the host.
    NoDevice,
    /// Failed to query or select an output device configuration.
    DeviceConfig(String),
    /// Failed to build the output stream.
    BuildStream(String),
    /// Failed to start an already-built stream.
    PlayStream(String),
    /// Failed to decode the source WAV/FLAC file.
    Decode(String),
    /// Unknown sound id or name.
    UnknownSound(String),
    /// Caller provided an invalid sound id.
    InvalidSoundId(String),
    /// Sound format is unsupported.
    UnsupportedFormat(String),
    /// Custom sound exceeds the maximum byte size.
    SoundTooLarge { size: usize, max: usize },
    /// Underlying I/O error (file open, thread spawn, ...).
    Io(String),
    /// Worker thread has exited or its channel is closed.
    WorkerUnavailable,
    /// Output device is currently lost; a rebuild is being retried.
    DeviceUnavailable,
}

impl AudioError {
    /// The message that [`AudioError::to_string`] returns.
    pub open spec fn message(&self) -> Seq<char> {
        match self {
            AudioError::InvalidRamp(d) => "invalid ramp duration: must be 2..=10 seconds, got "@
                + duration_debug_text(
                (d@ / (NANOS_PER_SEC as nat)) as u64,
                (d@ % (NANOS_PER_SEC as nat)) as u32,
            ),
            AudioError::NoDevice => "no audio output device available"@,
            AudioError::DeviceConfig(m) => "audio device configuration failed: "@ + m@,
            AudioError::BuildStream(m) => "failed to build audio output stream: "@ + m@,
            AudioError::PlayStream(m) => "failed to start audio output stream: "@ + m@,
            AudioError::Decode(m) => "failed to decode audio: "@ + m@,
            AudioError::UnknownSound(m) => "unknown sound id: "@ + m@,
            AudioError::InvalidSoundId(m) => "invalid sound id: "@ + m@,
            AudioError::UnsupportedFormat(m) => "unsupported sound format: "@ + m@,
            AudioError::SoundTooLarge { size, max } => "sound is too large: "@ + decimal(
                *size as nat,
            ) + " bytes (max "@ + decimal(*max as nat) + " bytes)"@,
            AudioError::Io(m) => "i/o error: "@ + m@,
            AudioError::WorkerUnavailable => "audio worker thread is unavailable"@,
            AudioError::DeviceUnavailable =>
                "audio device is currently unavailable; retry is in progress"@,
        }
    }

    /// The human-readable message of this error.
    pub fn to_string(&self) -> (s: String)
        ensures
            s@ == self.message(),
    {
        match self {
            AudioError::InvalidRamp(d) => {
                let shown = d.debug_string();
                concat("invalid ramp duration: must be 2..=10 seconds, got ", shown.as_str())
            },
            AudioError::NoDevice => String::from_str("no audio output device available"),
            AudioError::DeviceConfig(m) => concat(
                "audio device configuration failed: ",
                m.as_str(),
            ),
            AudioError::BuildStream(m) => concat(
                "failed to build audio output stream: ",
                m.as_str(),
            ),
            AudioError::PlayStream(m) => concat(
                "failed to start audio output stream: ",
                m.as_str(),
            ),
            AudioError::Decode(m) => concat("failed to decode audio: ", m.as_str()),
            AudioError::UnknownSound(m) => concat("unknown sound id: ", m.as_str()),
            AudioError::InvalidSoundId(m) => concat("invalid sound id: ", m.as_str()),
            AudioError::UnsupportedFormat(m) => concat("unsupported sound format: ", m.as_str()),
            AudioError::SoundTooLarge { size, max } => {
                let a = format_decimal(*size as u64);
                let b = format_decimal(*max as u64);
                let head = concat3("sound is too large: ", a.as_str(), " bytes (max ");
                concat3(head.as_str(), b.as_str(), " bytes)")
            },
            AudioError::Io(m) => concat("i/o error: ", m.as_str()),
            AudioError::WorkerUnavailable => String::from_str(
                "audio worker thread is unavailable",
            ),
            AudioError::DeviceUnavailable => String::from_str(
                "audio device is currently unavailable; retry is in progress",
            ),
        }
    }
}

/// Shape of the volume ramp applied at playback start.
#[derive(Debug, Clone, Copy, PartialEq, Eq, Structural)]
pub enum Ramp {
    /// Start playback at the target volume immediately (tier emergency).
    Immediate,
    /// Linearly ramp from 0 to the target volume over `duration`.
    Linear { duration: Duration },
}

impl Ramp {
    /// The ramp that starts at full volume.
    pub fn immediate() -> (r: Ramp)
        ensures
            r == Ramp::Immediate,
    {
        Ramp::Immediate
    }

    /// A linear ramp over `duration`, which must lie between 2 and 10
    /// seconds inclusive.
    pub fn linear(duration: Duration) -> (r: Result<Ramp, AudioError>)
        ensures
            MIN_RAMP_NANOS <= duration@ <= MAX_RAMP_NANOS ==> r == Ok::<Ramp, AudioError>(
                Ramp::Linear { duration },
            ),
            !(MIN_RAMP_NANOS <= duration@ <= MAX_RAMP_NANOS) ==> (r matches Err(
                AudioError::InvalidRamp(d),
            ) && d == duration),
    {
        let n = duration.as_nanos();
        if n < MIN_RAMP_NANOS || n > MAX_RAMP_NANOS {
            return Err(AudioError::InvalidRamp(duration));
        }
        Ok(Ramp::Linear { duration })
    }
}

/// Supported sound file formats.
#[derive(Debug, Clone, Copy, PartialEq, Eq, Structural)]
pub enum SoundFormat {
    Wav,
    Flac,
}

/// The file extension of a format.
pub open spec fn format_extension(f: SoundFormat) -> Seq<char> {
    match f {
        SoundFormat::Wav => "wav"@,
        SoundFormat::Flac => "flac"@,
    }
}

/// Whether `data` begins with `magic` at offset `at`.
pub open spec fn has_bytes_at(data: Seq<u8>, at: int, magic: Seq<u8>) -> bool {
    at + magic.len() <= data.len() && data.subrange(at, at + magic.len()) == magic
}

/// The format that the leading bytes of `data` announce.
pub open spec fn sniffed_format(data: Seq<u8>) -> Option<SoundFormat> {
    if data.len() >= 12 && has_bytes_at(data, 0, seq![0x52u8, 0x49, 0x46, 0x46]) && has_bytes_at(
        data,
        8,
        seq![0x57u8, 0x41, 0x56, 0x45],
    ) {
        Some(SoundFormat::Wav)
    } else if data.len() >= 4 && has_bytes_at(data, 0, seq![0x66u8, 0x4c, 0x61, 0x43]) {
        Some(SoundFormat::Flac)
    } else {
        None
    }
}

fn bytes_at(data: &[u8], at: usize, a: u8, b: u8, c: u8, d: u8) -> (r: bool)
    requires
        at + 4 <= data@.len(),
    ensures
        r == has_bytes_at(data@, at as int, seq![a, b, c, d]),
{
    let r = data[at] == a && data[at + 1] == b && data[at + 2] == c && data[at + 3] == d;
    assert(r ==> data@.subrange(at as int, at + 4) =~= seq![a, b, c, d]);
    assert(data@.subrange(at as int, at + 4) =~= seq![a, b, c, d] ==> r) by {
        if data@.subrange(at as int, at + 4) =~= seq![a, b, c, d] {
            assert(data@.subrange(at as int, at + 4)[0] == data@[at as int]);
            assert(data@.subrange(at as int, at + 4)[1] == data@[at + 1]);
            assert(data@.subrange(at as int, at + 4)[2] == data@[at + 2]);
            assert(data@.subrange(at as int, at + 4)[3] == data@[at + 3]);
        }
    }
    r
}

impl SoundFormat {
    /// The file extension for this format.
    pub fn extension(self) -> (s: &'static str)
        ensures
            s@ == format_extension(self),
    {
        match self {
            SoundFormat::Wav => "wav",
            SoundFormat::Flac => "flac",
        }
    }

    /// Identifies a WAV (`RIFF`....`WAVE`) or FLAC (`fLaC`) file by its
    /// leading bytes.
    pub fn sniff(data: &[u8]) -> (r: Result<SoundFormat, AudioError>)
        ensures
            match sniffed_format(data@) {
                Some(f) => r == Ok::<SoundFormat, AudioError>(f),
                None => r matches Err(AudioError::UnsupportedFormat(m)) && m@
                    == "expected WAV (RIFF/WAVE) or FLAC (fLaC)"@,
            },
    {
        if data.len() >= 12 && bytes_at(data, 0, 0x52, 0x49, 0x46, 0x46) && bytes_at(
            data,
            8,
            0x57,
            0x41,
            0x56,
            0x45,
        ) {
            return Ok(SoundFormat::Wav);
        }
        if data.len() >= 4 && bytes_at(data, 0, 0x66, 0x4c, 0x61, 0x43) {
            return Ok(SoundFormat::Flac);
        }
        Err(
            AudioError::UnsupportedFormat(
                String::from_str("expected WAV (RIFF/WAVE) or FLAC (fLaC)"),
            ),
        )
    }
}

/// Checks a sound offered for registration: it must be at most
/// [`MAX_CUSTOM_SOUND_BYTES`] long and announce WAV or FLAC.
pub fn check_custom_sound(data: &[u8]) -> (r: Result<SoundFormat, AudioError>)
    ensures
        data@.len() > MAX_CUSTOM_SOUND_BYTES ==> (r matches Err(
            AudioError::SoundTooLarge { size, max },
        ) && size == data@.len() && max == MAX_CUSTOM_SOUND_BYTES),
        data@.len() <= MAX_CUSTOM_SOUND_BYTES ==> match sniffed_format(data@) {
            Some(f) => r == Ok::<SoundFormat, AudioError>(f),
            None => r matches Err(AudioError::UnsupportedFormat(m)) && m@
                == "expected WAV (RIFF/WAVE) or FLAC (fLaC)"@,
        },
{
    if data.len() > MAX_CUSTOM_SOUND_BYTES {
        return Err(AudioError::SoundTooLarge { size: data.len(), max: MAX_CUSTOM_SOUND_BYTES });
    }
    SoundFormat::sniff(data)
}

// ---------------------------------------------------------------------------
// Checks on decoded sound layout
// ---------------------------------------------------------------------------

/// The sample rate a decoder reported, if it reported one.
pub fn sample_rate_of(rate: Option<u32>) -> (r: Result<u32, AudioError>)
    ensures
        match rate {
            Some(hz) => r == Ok::<u32, AudioError>(hz),
            None => r matches Err(AudioError::Decode(m)) && m@ == "unknown sample rate"@,
        },
{
    match rate {
        Some(hz) => Ok(hz),
        None => Err(AudioError::Decode(String::from_str("unknown sample rate"))),
    }
}

/// The channel count of a decoded stream, from the count of channels in
/// its layout (if the decoder reported one): it must be positive and fit
/// in 16 bits.
pub fn channel_count(count: Option<usize>) -> (r: Result<u16, AudioError>)
    ensures
        (count matches Some(n) && 0 < n <= u16::MAX) ==> r == Ok::<u16, AudioError>(
            count.unwrap() as u16,
        ),
        !(count matches Some(n) && 0 < n <= u16::MAX) ==> (r matches Err(AudioError::Decode(m))
            && m@ == "unknown or invalid channel layout"@),
{
    match count {
        Some(n) => {
            if n > 0 && n <= 65535 {
                Ok(n as u16)
            } else {
                Err(AudioError::Decode(String::from_str("unknown or invalid channel layout")))
            }
        },
        None => Err(AudioError::Decode(String::from_str("unknown or invalid channel layout"))),
    }
}

/// The message for a sample count that does not split into whole frames.
pub open spec fn partial_frame_message(samples: nat, channels: nat) -> Seq<char> {
    "decoded "@ + decimal(samples) + " samples, not a multiple of "@ + decimal(channels)
        + " channels"@
}

/// Checks the interleaved samples a decoder produced: there must be some,
/// and they must fill whole frames of `channels` samples.
pub fn check_sample_layout(samples: usize, channels: u16) -> (r: Result<(), AudioError>)
    requires
        channels > 0,
    ensures
        samples == 0 ==> (r matches Err(AudioError::Decode(m)) && m@ == "decoded zero samples"@),
        samples > 0 && samples % (channels as usize) != 0 ==> (r matches Err(
            AudioError::Decode(m),
        ) && m@ == partial_frame_message(samples as nat, channels as nat)),
        samples > 0 && samples % (channels as usize) == 0 ==> r is Ok,
{
    if samples == 0 {
        return Err(AudioError::Decode(String::from_str("decoded zero samples")));
    }
    if samples % (channels as usize) != 0 {
        let n = format_decimal(samples as u64);
        let c = format_decimal(channels as u64);
        let head = concat3("decoded ", n.as_str(), " samples, not a multiple of ");
        return Err(AudioError::Decode(concat3(head.as_str(), c.as_str(), " channels")));
    }
    Ok(())
}

/// The number of whole frames in `samples` interleaved samples of
/// `channels` channels.
pub fn frame_count(samples: usize, channels: u16) -> (n: usize)
    requires
        channels > 0,
    ensures
        n == samples / (channels as usize),
{
    samples / (channels as usize)
}

} // verus!
