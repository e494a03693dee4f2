//! Frame sizes derived from an audio format.

use vstd::prelude::*;
use crate::text::{decimal_digits, push_decimal, push_str};

verus! {

pub const SAMPLE_RATE: u32 = 48_000;
pub const CHANNELS: u8 = 2;
pub const FRAME_DURATION_MS: u8 = 10;
pub const FRAME_SAMPLES_PER_CHANNEL: usize = 480;

/// Bytes in one signed 16-bit sample.
pub const I16_BYTES: usize = 2;

#[derive(Clone, Copy, Debug, PartialEq, Eq, Structural)]
pub struct AudioFormat {
    pub sample_rate: u32,
    pub channels: u8,
    pub frame_duration_ms: u8,
}

#[derive(Clone, Debug, PartialEq, Eq)]
pub enum AudioFormatError {
    /// A zero or overflowing field.
    Invalid,
    /// The frame duration does not map to an integral number of samples.
    FrameDoesNotAlign,
    /// A frame holds the wrong number of samples.
    WrongFrameSampleCount { actual: usize, expected: usize },
}

/// The text of a format error, as its display shows it.
pub open spec fn audio_format_error_text(e: AudioFormatError) -> Seq<char> {
    match e {
        AudioFormatError::Invalid => "audio format contains a zero or overflowing field"@,
        AudioFormatError::FrameDoesNotAlign => "frame duration does not map to an integral number of samples"@,
        AudioFormatError::WrongFrameSampleCount { actual, expected } => "frame has "@ + decimal_digits(
            actual as nat,
        ) + " samples; expected "@ + decimal_digits(expected as nat),
    }
}

impl AudioFormatError {
    /// The error's message.
    pub fn message(&self) -> (text: String)
        ensures
            text@ == audio_format_error_text(*self),
    {
        let mut text = String::new();
        match self {
            AudioFormatError::Invalid => push_str(&mut text, "audio format contains a zero or overflowing field"),
            AudioFormatError::FrameDoesNotAlign => push_str(
                &mut text,
                "frame duration does not map to an integral number of samples",
            ),
            AudioFormatError::WrongFrameSampleCount { actual, expected } => {
                push_str(&mut text, "frame has ");
                push_decimal(&mut text, *actual as u64);
                push_str(&mut text, " samples; expected ");
                push_decimal(&mut text, *expected as u64);
            },
        }
        assert(text@ =~= audio_format_error_text(*self));
        text
    }
}

/// Samples per channel in one frame, or the error that `samples_per_channel` reports.
pub open spec fn spec_samples_per_channel(f: AudioFormat) -> Result<int, AudioFormatError> {
    if f.sample_rate == 0 || f.channels == 0 || f.frame_duration_ms == 0 {
        Err(AudioFormatError::Invalid)
    } else if f.sample_rate * f.frame_duration_ms > usize::MAX {
        Err(AudioFormatError::Invalid)
    } else if (f.sample_rate * f.frame_duration_ms) % 1000 != 0 {
        Err(AudioFormatError::FrameDoesNotAlign)
    } else {
        Ok((f.sample_rate * f.frame_duration_ms) / 1000)
    }
}

/// Interleaved samples in one frame.
pub open spec fn spec_samples_per_frame(f: AudioFormat) -> Result<int, AudioFormatError> {
    match spec_samples_per_channel(f) {
        Err(e) => Err(e),
        Ok(n) => if n * f.channels > usize::MAX {
            Err(AudioFormatError::Invalid)
        } else {
            Ok(n * f.channels)
        },
    }
}

/// Bytes of i16 PCM in one frame.
pub open spec fn spec_bytes_per_frame(f: AudioFormat) -> Result<int, AudioFormatError> {
    match spec_samples_per_frame(f) {
        Err(e) => Err(e),
        Ok(n) => if n * 2 > usize::MAX {
            Err(AudioFormatError::Invalid)
        } else {
            Ok(n * 2)
        },
    }
}

/// A result in `usize` that stands for the same value as a spec result in `int`.
pub open spec fn same_count(r: Result<usize, AudioFormatError>, s: Result<int, AudioFormatError>) -> bool {
    match (r, s) {
        (Ok(a), Ok(b)) => a == b,
        (Err(a), Err(b)) => a == b,
        _ => false,
    }
}

impl AudioFormat {
    /// The stream format: 48 kHz, stereo, 10 ms frames.
    pub fn pcm_48k_stereo_10ms() -> (format: AudioFormat)
        ensures
            format.sample_rate == SAMPLE_RATE,
            format.channels == CHANNELS,
            format.frame_duration_ms == FRAME_DURATION_MS,
    {
        AudioFormat { sample_rate: SAMPLE_RATE, channels: CHANNELS, frame_duration_ms: FRAME_DURATION_MS }
    }

    pub fn samples_per_channel(self) -> (result: Result<usize, AudioFormatError>)
        ensures
            same_count(result, spec_samples_per_channel(self)),
    {
        if self.sample_rate == 0 || self.channels == 0 || self.frame_duration_ms == 0 {
            return Err(AudioFormatError::Invalid);
        }
        let samples = match (self.sample_rate as usize).checked_mul(self.frame_duration_ms as usize) {
            Some(s) => s,
            None => return Err(AudioFormatError::Invalid),
        };
        if samples % 1_000 != 0 {
            return Err(AudioFormatError::FrameDoesNotAlign);
        }
        Ok(samples / 1_000)
    }

    pub fn samples_per_frame(self) -> (result: Result<usize, AudioFormatError>)
        ensures
            same_count(result, spec_samples_per_frame(self)),
    {
        let per_channel = match self.samples_per_channel() {
            Ok(n) => n,
            Err(e) => return Err(e),
        };
        match per_channel.checked_mul(self.channels as usize) {
            Some(n) => Ok(n),
            None => Err(AudioFormatError::Invalid),
        }
    }

    pub fn bytes_per_frame(self) -> (result: Result<usize, AudioFormatError>)
        ensures
            same_count(result, spec_bytes_per_frame(self)),
    {
        let samples = match self.samples_per_frame() {
            Ok(n) => n,
            Err(e) => return Err(e),
        };
        match samples.checked_mul(I16_BYTES) {
            Some(n) => Ok(n),
            None => Err(AudioFormatError::Invalid),
        }
    }
}

/// One frame of interleaved PCM with its source sample position.
#[derive(Clone, Debug, PartialEq, Eq)]
pub struct PcmFrame {
    pub timestamp: u64,
    pub samples: Vec<i16>,
}

impl PcmFrame {
    /// Accepts `samples` only when they fill exactly one frame of `format`.
    pub fn new(timestamp: u64, samples: Vec<i16>, format: AudioFormat) -> (result: Result<PcmFrame, AudioFormatError>)
        ensures
            match spec_samples_per_frame(format) {
                Err(e) => result == Err::<PcmFrame, AudioFormatError>(e),
                Ok(n) => if samples@.len() == n {
                    result matches Ok(frame) && frame.timestamp == timestamp && frame.samples@ == samples@
                } else {
                    result == Err::<PcmFrame, AudioFormatError>(AudioFormatError::WrongFrameSampleCount {
                        actual: samples@.len() as usize,
                        expected: n as usize,
                    })
                },
            },
    {
        let expected = match format.samples_per_frame() {
            Ok(n) => n,
            Err(e) => return Err(e),
        };
        if samples.len() != expected {
            return Err(AudioFormatError::WrongFrameSampleCount { actual: samples.len(), expected });
        }
        Ok(PcmFrame { timestamp, samples })
    }
}

} // verus!
