use vstd::prelude::*;
use vstd::arithmetic::div_mod::lemma_fundamental_div_mod;
use vstd::arithmetic::mul::{lemma_mul_inequality, lemma_mul_is_distributive_add_other_way};
use crate::error::AudioError;
use crate::pcm::{frame_count, WavSpec};
use crate::silence::SilenceInterval;

verus! {

/// Which of the two buffers of a session is meant.
#[derive(Clone, Copy, Debug, PartialEq, Eq, Structural)]
pub enum PlaybackSource {
    Raw,
    Processed,
}

/// What is known of an output stream that exists.
#[derive(Clone, Copy, Debug, PartialEq, Eq, Structural)]
pub enum StreamState {
    Playing,
    Paused,
}

/// What the audio device is to do next. The library decides; whoever owns
/// the device carries it out.
#[derive(Clone, Copy, Debug, PartialEq, Eq, Structural)]
pub enum DeviceAction {
    /// Build an output stream of exactly this layout and start it.
    Start { source: PlaybackSource, channels: u16, sample_rate: u32 },
    /// Suspend the stream of this source.
    Pause { source: PlaybackSource },
    /// Let the stream of this source run again.
    Resume { source: PlaybackSource },
    /// Drop the stream of this source.
    Release { source: PlaybackSource },
}

/// The next frame to render, and whether the end of the buffer has
/// already been reported.
#[derive(Clone, Copy, Debug, PartialEq, Eq, Structural)]
pub struct PlaybackCursor {
    pub frame: usize,
    pub completion_sent: bool,
}

/// The number of frames from frame `at` to the end of `len` samples.
pub open spec fn frames_left(len: int, channels: int, at: int) -> int {
    if at < frame_count(len, channels) {
        frame_count(len, channels) - at
    } else {
        0
    }
}

/// The number of frames that a callback with `slots` output slots plays.
pub open spec fn frames_played(len: int, channels: int, at: int, slots: int) -> int {
    if channels <= 0 {
        0
    } else if slots / channels < frames_left(len, channels, at) {
        slots / channels
    } else {
        frames_left(len, channels, at)
    }
}

/// A callback with `slots` output slots asks for more frames than are left.
pub open spec fn runs_out(len: int, channels: int, at: int, slots: int) -> bool {
    channels > 0 && slots / channels > frames_left(len, channels, at)
}

/// What a callback writes into `slots` output slots from frame `at` on:
/// the samples of the frames it plays, then silence.
pub open spec fn rendered(samples: Seq<i16>, channels: int, at: int, slots: int) -> Seq<i16> {
    let played = frames_played(samples.len() as int, channels, at, slots) * channels;
    Seq::new(
        slots as nat,
        |k: int|
            if k < played {
                samples[at * channels + k]
            } else {
                0i16
            },
    )
}

impl PlaybackCursor {
    /// A cursor at the first frame.
    pub fn new() -> (cursor: PlaybackCursor)
        ensures
            cursor == (PlaybackCursor { frame: 0, completion_sent: false }),
    {
        PlaybackCursor { frame: 0, completion_sent: false }
    }

    /// Moves the cursor to `frame`, or to `limit` if `frame` lies beyond
    /// it. The end of the buffer will be reported anew.
    pub fn seek(&mut self, frame: usize, limit: usize)
        ensures
            final(self).frame == if frame <= limit {
                frame
            } else {
                limit
            },
            final(self).frame <= limit,
            !final(self).completion_sent,
    {
        self.frame = if frame <= limit {
            frame
        } else {
            limit
        };
        self.completion_sent = false;
    }

    /// Fills `out` for one callback of the device: one sample per slot
    /// from the cursor on, for as many whole frames as `out` holds and the
    /// buffer has left, and silence in every other slot. The cursor moves
    /// on by the frames played.
    ///
    /// Returns whether the end of playback is to be reported: `out` asked
    /// for more frames than were left, and this was not reported before.
    pub fn render(&mut self, samples: &[i16], channels: u16, out: &mut [i16]) -> (completed: bool)
        ensures
            final(out)@ == rendered(
                samples@,
                channels as int,
                old(self).frame as int,
                old(out)@.len() as int,
            ),
            final(self).frame == old(self).frame + frames_played(
                samples@.len() as int,
                channels as int,
                old(self).frame as int,
                old(out)@.len() as int,
            ),
            final(self).completion_sent == (old(self).completion_sent || runs_out(
                samples@.len() as int,
                channels as int,
                old(self).frame as int,
                old(out)@.len() as int,
            )),
            completed == (!old(self).completion_sent && runs_out(
                samples@.len() as int,
                channels as int,
                old(self).frame as int,
                old(out)@.len() as int,
            )),
    {
        let slots: usize = out.len();
        let total: usize = samples.len();
        let start: usize = self.frame;
        let mut copied: usize = 0;
        let mut ended: bool = false;
        if channels > 0 {
            let width: usize = channels as usize;
            let frames: usize = total / width;
            let wanted: usize = slots / width;
            let left: usize = if start < frames {
                frames - start
            } else {
                0
            };
            let count: usize = if wanted < left {
                wanted
            } else {
                left
            };
            ended = wanted > left;
            if count > 0 {
                proof {
                    lemma_fundamental_div_mod(total as int, width as int);
                    lemma_fundamental_div_mod(slots as int, width as int);
                    lemma_mul_inequality(start + count, frames as int, width as int);
                    lemma_mul_inequality(count as int, wanted as int, width as int);
                    lemma_mul_is_distributive_add_other_way(width as int, start as int, count as int);
                    lemma_mul_inequality(0, start as int, width as int);
                    lemma_mul_inequality(0, count as int, width as int);
                    assert(width * frames == frames * width) by (nonlinear_arith);
                    assert(width * wanted == wanted * width) by (nonlinear_arith);
                }
                let base: usize = start * width;
                let length: usize = count * width;
                let mut k: usize = 0;
                while k < length
                    invariant
                        k <= length <= slots,
                        slots == out@.len(),
                        base + length <= total == samples@.len(),
                        forall|i: int| 0 <= i < k ==> out@[i] == samples@[base + i],
                    decreases length - k,
                {
                    out[k] = samples[base + k];
                    k = k + 1;
                }
                copied = length;
                self.frame = start + count;
            }
        }
        let mut k: usize = copied;
        while k < slots
            invariant
                copied <= k <= slots,
                slots == out@.len(),
                forall|i: int| 0 <= i < copied ==> out@[i] == samples@[start * channels + i],
                forall|i: int| copied <= i < k ==> out@[i] == 0i16,
            decreases slots - k,
        {
            out[k] = 0;
            k = k + 1;
        }
        assert(out@ =~= rendered(samples@, channels as int, start as int, slots as int));
        let completed: bool = ended && !self.completion_sent;
        if ended {
            self.completion_sent = true;
        }
        completed
    }
}

/// One of the two buffers of a session with what belongs to it: the
/// cursor, the state of its output stream if it has one, and the silence
/// that was last found in it.
#[derive(Clone, Debug)]
pub struct WaveformData {
    pub samples_raw: Vec<i16>,
    pub current_idx: PlaybackCursor,
    pub playing_stream: Option<StreamState>,
    pub silence_segments: Vec<SilenceInterval>,
}

impl WaveformData {
    /// The stream exists and is running.
    pub open spec fn is_playing(&self) -> bool {
        self.playing_stream == Some(StreamState::Playing)
    }

    /// No samples, no stream, the cursor at the first frame.
    pub fn new() -> (waveform: WaveformData)
        ensures
            waveform.samples_raw@ == Seq::<i16>::empty(),
            waveform.current_idx == (PlaybackCursor { frame: 0, completion_sent: false }),
            waveform.playing_stream is None,
            waveform.silence_segments@ == Seq::<SilenceInterval>::empty(),
    {
        WaveformData {
            samples_raw: Vec::new(),
            current_idx: PlaybackCursor::new(),
            playing_stream: None,
            silence_segments: Vec::new(),
        }
    }

    /// The given samples, no stream, the cursor at the first frame.
    pub fn from_samples(samples_raw: Vec<i16>) -> (waveform: WaveformData)
        ensures
            waveform.samples_raw == samples_raw,
            waveform.current_idx == (PlaybackCursor { frame: 0, completion_sent: false }),
            waveform.playing_stream is None,
            waveform.silence_segments@ == Seq::<SilenceInterval>::empty(),
    {
        WaveformData {
            samples_raw,
            current_idx: PlaybackCursor::new(),
            playing_stream: None,
            silence_segments: Vec::new(),
        }
    }

    /// Moves the cursor to `frame`, or to the end of the buffer if
    /// `frame` lies beyond it. Nothing else changes.
    pub fn seek(&mut self, frame: usize, channels: u16)
        ensures
            final(self).current_idx.frame == if frame <= frame_count(
                old(self).samples_raw@.len() as int,
                channels as int,
            ) {
                frame as int
            } else {
                frame_count(old(self).samples_raw@.len() as int, channels as int)
            },
            !final(self).current_idx.completion_sent,
            final(self).samples_raw == old(self).samples_raw,
            final(self).playing_stream == old(self).playing_stream,
            final(self).silence_segments == old(self).silence_segments,
    {
        let limit: usize = if channels == 0 {
            0
        } else {
            self.samples_raw.len() / (channels as usize)
        };
        self.current_idx.seek(frame, limit);
    }

    /// Suspends the stream. Fails with `DeviceError`, and changes
    /// nothing, if there is no stream.
    pub fn pause(&mut self) -> (paused: Result<(), AudioError>)
        ensures
            paused == if old(self).playing_stream is Some {
                Ok::<(), AudioError>(())
            } else {
                Err(AudioError::DeviceError)
            },
            final(self).playing_stream == if old(self).playing_stream is Some {
                Some(StreamState::Paused)
            } else {
                None
            },
            final(self).samples_raw == old(self).samples_raw,
            final(self).current_idx == old(self).current_idx,
            final(self).silence_segments == old(self).silence_segments,
    {
        match self.playing_stream {
            Some(_) => {
                self.playing_stream = Some(StreamState::Paused);
                Ok(())
            },
            None => Err(AudioError::DeviceError),
        }
    }

    /// Lets the stream run again. Fails with `DeviceError`, and changes
    /// nothing, if there is no stream.
    pub fn resume(&mut self) -> (resumed: Result<(), AudioError>)
        ensures
            resumed == if old(self).playing_stream is Some {
                Ok::<(), AudioError>(())
            } else {
                Err(AudioError::DeviceError)
            },
            final(self).playing_stream == if old(self).playing_stream is Some {
                Some(StreamState::Playing)
            } else {
                None
            },
            final(self).samples_raw == old(self).samples_raw,
            final(self).current_idx == old(self).current_idx,
            final(self).silence_segments == old(self).silence_segments,
    {
        match self.playing_stream {
            Some(_) => {
                self.playing_stream = Some(StreamState::Playing);
                Ok(())
            },
            None => Err(AudioError::DeviceError),
        }
    }

    /// Gives up the stream and puts the cursor back to the first frame.
    /// Returns whether there was a stream to give up.
    pub fn stop(&mut self) -> (released: bool)
        ensures
            released == (old(self).playing_stream is Some),
            final(self).playing_stream is None,
            final(self).current_idx == (PlaybackCursor { frame: 0, completion_sent: false }),
            final(self).samples_raw == old(self).samples_raw,
            final(self).silence_segments == old(self).silence_segments,
    {
        let released: bool = self.playing_stream.is_some();
        self.playing_stream = None;
        self.current_idx = PlaybackCursor::new();
        released
    }

    /// Fills `out` for one callback of the device from this buffer; see
    /// [`PlaybackCursor::render`].
    pub fn render(&mut self, channels: u16, out: &mut [i16]) -> (completed: bool)
        ensures
            final(out)@ == rendered(
                old(self).samples_raw@,
                channels as int,
                old(self).current_idx.frame as int,
                old(out)@.len() as int,
            ),
            final(self).current_idx.frame == old(self).current_idx.frame + frames_played(
                old(self).samples_raw@.len() as int,
                channels as int,
                old(self).current_idx.frame as int,
                old(out)@.len() as int,
            ),
            final(self).current_idx.completion_sent == (old(self).current_idx.completion_sent
                || runs_out(
                old(self).samples_raw@.len() as int,
                channels as int,
                old(self).current_idx.frame as int,
                old(out)@.len() as int,
            )),
            completed == (!old(self).current_idx.completion_sent && runs_out(
                old(self).samples_raw@.len() as int,
                channels as int,
                old(self).current_idx.frame as int,
                old(out)@.len() as int,
            )),
            final(self).samples_raw == old(self).samples_raw,
            final(self).playing_stream == old(self).playing_stream,
            final(self).silence_segments == old(self).silence_segments,
    {
        self.current_idx.render(self.samples_raw.as_slice(), channels, out)
    }
}

/// Starts playback of `waveform` from its first frame, on a stream of
/// exactly the layout that `spec` records.
///
/// The cursor goes back to the first frame and the stream counts as
/// playing; the action to carry out is returned. A layout without
/// channels or with a sample rate of zero cannot be played: that fails
/// with `DeviceError` and changes nothing.
pub fn play_samples(waveform: &mut WaveformData, spec: WavSpec, source: PlaybackSource) -> (started:
    Result<DeviceAction, AudioError>)
    ensures
        started == if spec.channels > 0 && spec.sample_rate > 0 {
            Ok::<DeviceAction, AudioError>(
                DeviceAction::Start {
                    source,
                    channels: spec.channels,
                    sample_rate: spec.sample_rate,
                },
            )
        } else {
            Err(AudioError::DeviceError)
        },
        started is Ok ==> final(waveform).current_idx == (PlaybackCursor {
            frame: 0,
            completion_sent: false,
        }) && final(waveform).playing_stream == Some(StreamState::Playing),
        started is Err ==> final(waveform).current_idx == old(waveform).current_idx
            && final(waveform).playing_stream == old(waveform).playing_stream,
        final(waveform).samples_raw == old(waveform).samples_raw,
        final(waveform).silence_segments == old(waveform).silence_segments,
{
    if spec.channels == 0 || spec.sample_rate == 0 {
        return Err(AudioError::DeviceError);
    }
    waveform.current_idx = PlaybackCursor::new();
    waveform.playing_stream = Some(StreamState::Playing);
    Ok(DeviceAction::Start { source, channels: spec.channels, sample_rate: spec.sample_rate })
}

} // verus!
