use vstd::prelude::*;
use crate::error::AudioError;

verus! {

/// The format of a recording: how many channels are interleaved and how
/// many frames make up one second.
#[derive(Clone, Copy, Debug, PartialEq, Eq, Structural)]
pub struct WavSpec {
    pub channels: u16,
    pub sample_rate: u32,
    pub bits_per_sample: u16,
}

/// Decoded 16-bit samples, interleaved by channel, with their format.
///
/// A buffer is plain data. Whether its length is a whole number of frames
/// is checked where it matters, by [`PcmBuffer::validate`].
#[derive(Clone, Debug)]
pub struct PcmBuffer {
    pub samples: Vec<i16>,
    pub channel_count: u16,
    pub sample_rate: u32,
}

/// The number of whole frames in `len` samples of `channels` channels;
/// none when there are no channels.
pub open spec fn frame_count(len: int, channels: int) -> int {
    if channels > 0 {
        len / channels
    } else {
        0
    }
}

/// A copy of `samples`.
pub fn copy_samples(samples: &Vec<i16>) -> (copy: Vec<i16>)
    ensures
        copy@ == samples@,
{
    let mut copy: Vec<i16> = Vec::new();
    let mut at: usize = 0;
    while at < samples.len()
        invariant
            at <= samples@.len(),
            copy@ == samples@.subrange(0, at as int),
        decreases samples@.len() - at,
    {
        copy.push(samples[at]);
        at = at + 1;
        assert(samples@.subrange(0, at as int) =~= samples@.subrange(0, at - 1).push(
            samples@[at - 1],
        ));
    }
    assert(samples@.subrange(0, at as int) =~= samples@);
    copy
}

impl PcmBuffer {
    /// At least one channel, and the samples fill whole frames.
    pub open spec fn aligned(&self) -> bool {
        &&& self.channel_count > 0
        &&& self.samples@.len() as int % self.channel_count as int == 0
    }

    /// The number of whole frames in the buffer.
    pub open spec fn frames(&self) -> int {
        frame_count(self.samples@.len() as int, self.channel_count as int)
    }

    /// Puts samples and format together; nothing is checked here.
    pub fn new(samples: Vec<i16>, spec: WavSpec) -> (buffer: PcmBuffer)
        ensures
            buffer.samples == samples,
            buffer.channel_count == spec.channels,
            buffer.sample_rate == spec.sample_rate,
    {
        PcmBuffer { samples, channel_count: spec.channels, sample_rate: spec.sample_rate }
    }

    /// Checks the shape of the buffer: `InvalidInput` without channels or
    /// with a zero sample rate, else `CorruptAudioData` when the last frame
    /// is incomplete.
    pub fn validate(&self) -> (checked: Result<(), AudioError>)
        ensures
            checked == if self.channel_count == 0 || self.sample_rate == 0 {
                Err::<(), AudioError>(AudioError::InvalidInput)
            } else if !self.aligned() {
                Err(AudioError::CorruptAudioData)
            } else {
                Ok(())
            },
    {
        if self.channel_count == 0 || self.sample_rate == 0 {
            return Err(AudioError::InvalidInput);
        }
        if self.samples.len() % (self.channel_count as usize) != 0 {
            return Err(AudioError::CorruptAudioData);
        }
        Ok(())
    }

    /// The number of whole frames in the buffer.
    pub fn frame_count(&self) -> (n: usize)
        ensures
            n == self.frames(),
    {
        if self.channel_count == 0 {
            0
        } else {
            self.samples.len() / (self.channel_count as usize)
        }
    }
}

} // verus!
