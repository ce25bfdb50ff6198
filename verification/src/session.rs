use vstd::prelude::*;
use crate::audio::{
    frames_played, play_samples, rendered, runs_out, DeviceAction, PlaybackCursor, PlaybackSource,
    StreamState, WaveformData,
};
use crate::error::AudioError;
use crate::job::{Job, JobRequest, JobState};
use crate::pcm::{copy_samples, frame_count, PcmBuffer, WavSpec};
use crate::segmenter::{rejection, PassMode, PassOutput, Progress};
use crate::silence::{SilenceInterval, SilenceParams, Threshold};

verus! {

/// An editing session: the recording as it was loaded, the recording with
/// its silence cut, their cursors and streams, the silence settings and
/// the one background job.
///
/// The session decides; it touches neither files nor devices nor threads.
/// What is to be done outside comes back as a [`DeviceAction`] or a
/// [`JobRequest`], and what happened outside is handed in as a plain value.
#[derive(Clone, Debug)]
pub struct SoundApp {
    pub raw_waveform: WaveformData,
    pub processed_waveform: WaveformData,
    pub spec: Option<WavSpec>,
    pub file_loaded: bool,
    pub processed_ready: bool,
    pub silence_threshold: Threshold,
    pub min_silence_len: usize,
    pub job: Job,
}

/// The source that `source` is not.
pub open spec fn other_source(source: PlaybackSource) -> PlaybackSource {
    match source {
        PlaybackSource::Raw => PlaybackSource::Processed,
        PlaybackSource::Processed => PlaybackSource::Raw,
    }
}

/// A waveform as it is right after its samples were put in.
pub open spec fn is_fresh(waveform: WaveformData, samples: Seq<i16>) -> bool {
    &&& waveform.samples_raw@ == samples
    &&& waveform.current_idx == (PlaybackCursor { frame: 0, completion_sent: false })
    &&& waveform.playing_stream is None
    &&& waveform.silence_segments@ == Seq::<SilenceInterval>::empty()
}

/// The error with which a decoded file is turned down, if it is:
/// `LoadError` when decoding failed, `InvalidInput` without channels or
/// with a sample rate of zero, `CorruptAudioData` when the last frame is
/// incomplete.
pub open spec fn load_rejection(decoded: Option<(Vec<i16>, WavSpec)>) -> Option<AudioError> {
    match decoded {
        None => Some(AudioError::LoadError),
        Some((samples, spec)) => if spec.channels == 0 || spec.sample_rate == 0 {
            Some(AudioError::InvalidInput)
        } else if samples@.len() as int % spec.channels as int != 0 {
            Some(AudioError::CorruptAudioData)
        } else {
            None
        },
    }
}

impl SoundApp {
    /// The waveform of `source`.
    pub open spec fn waveform(&self, source: PlaybackSource) -> WaveformData {
        match source {
            PlaybackSource::Raw => self.raw_waveform,
            PlaybackSource::Processed => self.processed_waveform,
        }
    }

    /// A file is loaded and its format is known.
    pub open spec fn loaded(&self) -> bool {
        self.file_loaded && self.spec is Some
    }

    /// `source` has something to play.
    pub open spec fn can_play(&self, source: PlaybackSource) -> bool {
        self.loaded() && (source == PlaybackSource::Processed ==> self.processed_ready)
    }

    /// The number of channels of the loaded file; none without a file.
    pub open spec fn channels(&self) -> int {
        match self.spec {
            Some(spec) => spec.channels as int,
            None => 0,
        }
    }

    /// At most one of the two streams is running.
    pub open spec fn exclusive(&self) -> bool {
        !(self.raw_waveform.is_playing() && self.processed_waveform.is_playing())
    }

    /// The silence settings as the session holds them.
    pub open spec fn params(&self) -> SilenceParams {
        SilenceParams { threshold: self.silence_threshold, min_silence_ms: self.min_silence_len }
    }

    /// The recording as it was loaded, as a buffer. Meaningful when a file
    /// is loaded.
    pub open spec fn source_buffer(&self) -> PcmBuffer {
        PcmBuffer {
            samples: self.raw_waveform.samples_raw,
            channel_count: self.spec->Some_0.channels,
            sample_rate: self.spec->Some_0.sample_rate,
        }
    }

    /// `self` and `before` differ at most in the cursors and streams of
    /// their waveforms.
    pub open spec fn same_recording(&self, before: &SoundApp) -> bool {
        &&& self.raw_waveform.samples_raw == before.raw_waveform.samples_raw
        &&& self.raw_waveform.silence_segments == before.raw_waveform.silence_segments
        &&& self.processed_waveform.samples_raw == before.processed_waveform.samples_raw
        &&& self.processed_waveform.silence_segments == before.processed_waveform.silence_segments
        &&& self.spec == before.spec
        &&& self.file_loaded == before.file_loaded
        &&& self.processed_ready == before.processed_ready
        &&& self.silence_threshold == before.silence_threshold
        &&& self.min_silence_len == before.min_silence_len
        &&& self.job == before.job
    }

    /// The streams that exist, as the releases that give them up.
    pub open spec fn releases(&self) -> Seq<DeviceAction> {
        let raw = if self.raw_waveform.playing_stream is Some {
            seq![DeviceAction::Release { source: PlaybackSource::Raw }]
        } else {
            Seq::empty()
        };
        let processed = if self.processed_waveform.playing_stream is Some {
            seq![DeviceAction::Release { source: PlaybackSource::Processed }]
        } else {
            Seq::empty()
        };
        raw + processed
    }

    /// What the device is to do so that `source` alone runs: suspend the
    /// stream of the other source if it has one, then do `then`.
    pub open spec fn alone(&self, source: PlaybackSource, then: DeviceAction) -> Seq<DeviceAction> {
        if self.waveform(other_source(source)).playing_stream is Some {
            seq![DeviceAction::Pause { source: other_source(source) }, then]
        } else {
            seq![then]
        }
    }

    /// The error with which a job is turned down, if it is: `JobBusy`
    /// while a job is running, else what [`rejection`] names for the
    /// loaded recording and the silence settings.
    pub open spec fn refusal(&self) -> Option<AudioError> {
        if self.job.state == JobState::Running {
            Some(AudioError::JobBusy)
        } else if !self.loaded() {
            None
        } else {
            rejection(&self.source_buffer(), &self.params())
        }
    }

    /// `submitted` and `after` are what submitting a job of `mode` to
    /// `self` gives.
    pub open spec fn submits(
        &self,
        after: &SoundApp,
        mode: PassMode,
        submitted: Result<Option<JobRequest>, AudioError>,
    ) -> bool {
        match submitted {
            Err(e) => self.refusal() == Some(e) && *after == *self,
            Ok(None) => self.refusal() is None && !self.loaded() && *after == *self,
            Ok(Some(request)) => {
                &&& self.refusal() is None
                &&& self.loaded()
                &&& request.buffer.samples@ == self.raw_waveform.samples_raw@
                &&& request.buffer.channel_count == self.spec->Some_0.channels
                &&& request.buffer.sample_rate == self.spec->Some_0.sample_rate
                &&& request.params == self.params()
                &&& request.mode == mode
                &&& *after == (SoundApp {
                    job: Job {
                        target: mode,
                        progress: Progress { done: 0, total: self.source_buffer().frames() as usize },
                        state: JobState::Running,
                    },
                    ..*self
                })
            },
        }
    }

    /// The format of the loaded file can be played.
    pub open spec fn playable(&self) -> bool {
        self.spec matches Some(spec) && spec.channels > 0 && spec.sample_rate > 0
    }

    /// `started` and `after` are what starting playback of `source` in
    /// `self` gives.
    pub open spec fn plays(
        &self,
        after: &SoundApp,
        source: PlaybackSource,
        started: Result<Vec<DeviceAction>, AudioError>,
    ) -> bool {
        if !self.can_play(source) {
            &&& *after == *self
            &&& started matches Ok(actions)
            &&& actions@ == Seq::<DeviceAction>::empty()
        } else if !self.playable() {
            &&& *after == *self
            &&& started == Err::<Vec<DeviceAction>, AudioError>(AudioError::DeviceError)
        } else {
            &&& after.same_recording(self)
            &&& started matches Ok(actions)
            &&& actions@ == self.alone(
                source,
                DeviceAction::Start {
                    source,
                    channels: self.spec->Some_0.channels,
                    sample_rate: self.spec->Some_0.sample_rate,
                },
            )
            &&& after.waveform(source).current_idx == (PlaybackCursor {
                frame: 0,
                completion_sent: false,
            })
            &&& after.waveform(source).playing_stream == Some(StreamState::Playing)
            &&& after.waveform(other_source(source)).current_idx == self.waveform(
                other_source(source),
            ).current_idx
            &&& after.waveform(other_source(source)).playing_stream == self.set_aside(
                other_source(source),
            )
        }
    }

    /// The stream of `source` after it had to make way: paused if there
    /// is one.
    pub open spec fn set_aside(&self, source: PlaybackSource) -> Option<StreamState> {
        if self.waveform(source).playing_stream is Some {
            Some(StreamState::Paused)
        } else {
            None
        }
    }

    /// `paused` and `after` are what pausing `source` in `self` gives.
    pub open spec fn pauses(
        &self,
        after: &SoundApp,
        source: PlaybackSource,
        paused: Result<DeviceAction, AudioError>,
    ) -> bool {
        if self.waveform(source).playing_stream is Some {
            &&& after.same_recording(self)
            &&& after.waveform(other_source(source)) == self.waveform(other_source(source))
            &&& after.waveform(source).current_idx == self.waveform(source).current_idx
            &&& after.waveform(source).playing_stream == Some(StreamState::Paused)
            &&& paused == Ok::<DeviceAction, AudioError>(DeviceAction::Pause { source })
        } else {
            &&& *after == *self
            &&& paused == Err::<DeviceAction, AudioError>(AudioError::DeviceError)
        }
    }

    /// `resumed` and `after` are what resuming `source` in `self` gives.
    pub open spec fn resumes(
        &self,
        after: &SoundApp,
        source: PlaybackSource,
        resumed: Result<Vec<DeviceAction>, AudioError>,
    ) -> bool {
        if self.waveform(source).playing_stream is Some {
            &&& after.same_recording(self)
            &&& after.raw_waveform.current_idx == self.raw_waveform.current_idx
            &&& after.processed_waveform.current_idx == self.processed_waveform.current_idx
            &&& after.waveform(source).playing_stream == Some(StreamState::Playing)
            &&& after.waveform(other_source(source)).playing_stream == self.set_aside(
                other_source(source),
            )
            &&& resumed matches Ok(actions)
            &&& actions@ == self.alone(source, DeviceAction::Resume { source })
        } else {
            &&& *after == *self
            &&& resumed == Err::<Vec<DeviceAction>, AudioError>(AudioError::DeviceError)
        }
    }

    /// `released` and `after` are what stopping `source` in `self` gives.
    pub open spec fn stops(
        &self,
        after: &SoundApp,
        source: PlaybackSource,
        released: Option<DeviceAction>,
    ) -> bool {
        &&& after.same_recording(self)
        &&& after.waveform(other_source(source)) == self.waveform(other_source(source))
        &&& after.waveform(source).playing_stream is None
        &&& after.waveform(source).current_idx == (PlaybackCursor {
            frame: 0,
            completion_sent: false,
        })
        &&& released == if self.waveform(source).playing_stream is Some {
            Some(DeviceAction::Release { source })
        } else {
            None
        }
    }

    /// A session without a file: a threshold of one hundredth of full
    /// scale, a minimum of one second of silence, no job.
    pub fn new() -> (app: SoundApp)
        ensures
            is_fresh(app.raw_waveform, Seq::empty()),
            is_fresh(app.processed_waveform, Seq::empty()),
            app.spec is None,
            !app.file_loaded,
            !app.processed_ready,
            app.silence_threshold == (Threshold { numer: 1, denom: 100 }),
            app.min_silence_len == 1000,
            app.job == (Job {
                target: PassMode::Detect,
                progress: Progress { done: 0, total: 0 },
                state: JobState::Idle,
            }),
    {
        SoundApp {
            raw_waveform: WaveformData::new(),
            processed_waveform: WaveformData::new(),
            spec: None,
            file_loaded: false,
            processed_ready: false,
            silence_threshold: Threshold { numer: 1, denom: 100 },
            min_silence_len: 1000,
            job: Job::new(),
        }
    }

    /// Whether a job is running.
    pub fn is_processing(&self) -> (running: bool)
        ensures
            running == (self.job.state == JobState::Running),
    {
        self.job.is_running()
    }

    /// How far the job has come.
    pub fn processing_progress(&self) -> (progress: Progress)
        ensures
            progress == self.job.progress,
    {
        self.job.progress
    }

    /// The streams that exist, as the releases that give them up.
    fn release_all(&self) -> (actions: Vec<DeviceAction>)
        ensures
            actions@ == self.releases(),
    {
        let mut actions: Vec<DeviceAction> = Vec::new();
        if self.raw_waveform.playing_stream.is_some() {
            actions.push(DeviceAction::Release { source: PlaybackSource::Raw });
        }
        if self.processed_waveform.playing_stream.is_some() {
            actions.push(DeviceAction::Release { source: PlaybackSource::Processed });
        }
        assert(actions@ =~= self.releases());
        actions
    }

    /// Takes in a decoded file, or the news that decoding failed.
    ///
    /// A file that [`load_rejection`] turns down leaves the session as it
    /// is. Otherwise both waveforms start afresh with the decoded samples,
    /// nothing counts as processed, no job is running, and the streams
    /// that existed are to be released. The silence settings stay.
    pub fn load_file(&mut self, decoded: Option<(Vec<i16>, WavSpec)>) -> (loaded: Result<
        Vec<DeviceAction>,
        AudioError,
    >)
        ensures
            match loaded {
                Ok(actions) => {
                    &&& load_rejection(decoded) is None
                    &&& actions@ == old(self).releases()
                    &&& is_fresh(final(self).raw_waveform, decoded->Some_0.0@)
                    &&& is_fresh(final(self).processed_waveform, decoded->Some_0.0@)
                    &&& final(self).spec == Some(decoded->Some_0.1)
                    &&& final(self).file_loaded
                    &&& !final(self).processed_ready
                    &&& final(self).silence_threshold == old(self).silence_threshold
                    &&& final(self).min_silence_len == old(self).min_silence_len
                    &&& final(self).job == (Job {
                        target: PassMode::Detect,
                        progress: Progress { done: 0, total: 0 },
                        state: JobState::Idle,
                    })
                },
                Err(e) => load_rejection(decoded) == Some(e) && *final(self) == *old(self),
            },
    {
        match decoded {
            None => Err(AudioError::LoadError),
            Some((samples, spec)) => {
                let buffer = PcmBuffer::new(samples, spec);
                match buffer.validate() {
                    Ok(()) => {},
                    Err(e) => {
                        return Err(e);
                    },
                }
                let actions = self.release_all();
                let copy = copy_samples(&buffer.samples);
                self.raw_waveform = WaveformData::from_samples(copy);
                self.processed_waveform = WaveformData::from_samples(buffer.samples);
                self.spec = Some(spec);
                self.file_loaded = true;
                self.processed_ready = false;
                self.job = Job::new();
                Ok(actions)
            },
        }
    }

    /// Submits a job over the recording as it was loaded.
    ///
    /// While a job is running, a second one is turned down with `JobBusy`.
    /// Without a file there is nothing to do. A recording or settings that
    /// cannot be scanned are turned down with the error that
    /// [`rejection`] names. In all three cases the session stays as it is.
    /// Otherwise the job is running, with none of its frames done, and the
    /// request for the worker is returned.
    pub fn submit(&mut self, mode: PassMode) -> (submitted: Result<Option<JobRequest>, AudioError>)
        ensures
            old(self).submits(final(self), mode, submitted),
    {
        if self.job.is_running() {
            return Err(AudioError::JobBusy);
        }
        if !self.file_loaded {
            return Ok(None);
        }
        let spec: WavSpec = match self.spec {
            Some(spec) => spec,
            None => {
                return Ok(None);
            },
        };
        if spec.channels == 0 || spec.sample_rate < 1000 || !self.silence_threshold.is_valid() {
            return Err(AudioError::InvalidInput);
        }
        let total: usize = self.raw_waveform.samples_raw.len();
        if total % (spec.channels as usize) != 0 {
            return Err(AudioError::CorruptAudioData);
        }
        let frames: usize = total / (spec.channels as usize);
        let request = JobRequest {
            buffer: PcmBuffer {
                samples: copy_samples(&self.raw_waveform.samples_raw),
                channel_count: spec.channels,
                sample_rate: spec.sample_rate,
            },
            params: SilenceParams {
                threshold: self.silence_threshold,
                min_silence_ms: self.min_silence_len,
            },
            mode,
        };
        let accepted = self.job.submit(mode, frames);
        Ok(Some(request))
    }

    /// Submits a job that finds the silence; see [`SoundApp::submit`].
    pub fn detect_silence_background(&mut self) -> (submitted: Result<
        Option<JobRequest>,
        AudioError,
    >)
        ensures
            old(self).submits(final(self), PassMode::Detect, submitted),
    {
        self.submit(PassMode::Detect)
    }

    /// Submits a job that cuts the silence; see [`SoundApp::submit`].
    pub fn remove_all_silence_background(&mut self) -> (submitted: Result<
        Option<JobRequest>,
        AudioError,
    >)
        ensures
            old(self).submits(final(self), PassMode::Remove, submitted),
    {
        self.submit(PassMode::Remove)
    }

    /// Takes in what the worker has sent since the last call: the latest
    /// progress, if any, and the result, if the job has ended.
    ///
    /// Without a running job nothing is taken in. Progress replaces the
    /// progress of the job; without any, the progress stays. A result ends
    /// the job and leaves its progress as last reported. A failure is
    /// returned and changes nothing else. A success stores the intervals
    /// with the recording as it was loaded and, if it brings samples, puts
    /// them in the place of the processed samples, which then count as
    /// ready; cursors and streams stay as they are.
    pub fn update_processing(
        &mut self,
        progress: Option<Progress>,
        finished: Option<Result<PassOutput, AudioError>>,
    ) -> (taken: Result<(), AudioError>)
        ensures
            old(self).job.state != JobState::Running ==> *final(self) == *old(self) && taken
                == Ok::<(), AudioError>(()),
            old(self).job.state == JobState::Running ==> {
                let reported = match progress {
                    Some(p) => p,
                    None => old(self).job.progress,
                };
                match finished {
                    None => {
                        &&& *final(self) == (SoundApp {
                            job: Job { progress: reported, ..old(self).job },
                            ..*old(self)
                        })
                        &&& taken == Ok::<(), AudioError>(())
                    },
                    Some(Err(e)) => {
                        &&& *final(self) == (SoundApp {
                            job: Job {
                                progress: reported,
                                state: JobState::Done,
                                ..old(self).job
                            },
                            ..*old(self)
                        })
                        &&& taken == Err::<(), AudioError>(e)
                    },
                    Some(Ok(output)) => {
                        &&& *final(self) == (SoundApp {
                            job: Job {
                                progress: reported,
                                state: JobState::Done,
                                ..old(self).job
                            },
                            raw_waveform: WaveformData {
                                silence_segments: output.intervals,
                                ..old(self).raw_waveform
                            },
                            processed_waveform: match output.samples {
                                Some(samples) => WaveformData {
                                    samples_raw: samples,
                                    ..old(self).processed_waveform
                                },
                                None => old(self).processed_waveform,
                            },
                            processed_ready: output.samples is Some || old(self).processed_ready,
                            ..*old(self)
                        })
                        &&& taken == Ok::<(), AudioError>(())
                    },
                }
            },
    {
        if !self.job.is_running() {
            return Ok(());
        }
        match progress {
            Some(p) => {
                self.job.report(p);
            },
            None => {},
        }
        match finished {
            None => Ok(()),
            Some(Err(e)) => {
                let completed = self.job.complete();
                Err(e)
            },
            Some(Ok(output)) => {
                let completed = self.job.complete();
                self.raw_waveform.silence_segments = output.intervals;
                match output.samples {
                    Some(samples) => {
                        self.processed_waveform.samples_raw = samples;
                        self.processed_ready = true;
                    },
                    None => {},
                }
                Ok(())
            },
        }
    }

    /// What an export is to write: the processed samples, and the format
    /// of the loaded file with its channels, sample rate and bit depth
    /// unchanged. Fails with `SaveError` when no format is known.
    pub fn save_file(&self) -> (export: Result<(PcmBuffer, WavSpec), AudioError>)
        ensures
            match export {
                Ok((buffer, format)) => {
                    &&& self.spec == Some(format)
                    &&& buffer.samples@ == self.processed_waveform.samples_raw@
                    &&& buffer.channel_count == format.channels
                    &&& buffer.sample_rate == format.sample_rate
                },
                Err(e) => self.spec is None && e == AudioError::SaveError,
            },
    {
        match self.spec {
            Some(spec) => Ok(
                (
                    PcmBuffer {
                        samples: copy_samples(&self.processed_waveform.samples_raw),
                        channel_count: spec.channels,
                        sample_rate: spec.sample_rate,
                    },
                    spec,
                ),
            ),
            None => Err(AudioError::SaveError),
        }
    }

    /// The progress of the job in thousandths, from 0 to 1000: none while
    /// no job has been submitted, else what the worker last reported.
    pub fn processing_permille(&self) -> (share: u16)
        ensures
            share == self.job.permille_shown(),
            share <= 1000,
    {
        self.job.permille()
    }

    /// Starts playback of `source` from its first frame.
    ///
    /// Without something to play nothing happens. A format that cannot be
    /// played fails with `DeviceError` and changes nothing. Otherwise the
    /// stream of the other source, if it has one, is paused, the cursor of
    /// `source` goes back to the first frame, and its stream counts as
    /// playing; the actions for the device are returned in order.
    pub fn play(&mut self, source: PlaybackSource) -> (started: Result<
        Vec<DeviceAction>,
        AudioError,
    >)
        ensures
            old(self).plays(final(self), source, started),
            old(self).exclusive() ==> final(self).exclusive(),
            started matches Ok(actions) && actions@.len() > 0 ==> final(self).exclusive(),
    {
        let mut actions: Vec<DeviceAction> = Vec::new();
        if !self.file_loaded {
            return Ok(actions);
        }
        let spec: WavSpec = match self.spec {
            Some(spec) => spec,
            None => {
                return Ok(actions);
            },
        };
        match source {
            PlaybackSource::Raw => {
                if spec.channels == 0 || spec.sample_rate == 0 {
                    return Err(AudioError::DeviceError);
                }
                match self.processed_waveform.pause() {
                    Ok(()) => {
                        actions.push(DeviceAction::Pause { source: PlaybackSource::Processed });
                    },
                    Err(_) => {},
                }
                match play_samples(&mut self.raw_waveform, spec, source) {
                    Ok(start) => {
                        actions.push(start);
                    },
                    Err(_) => {},
                }
            },
            PlaybackSource::Processed => {
                if !self.processed_ready {
                    return Ok(actions);
                }
                if spec.channels == 0 || spec.sample_rate == 0 {
                    return Err(AudioError::DeviceError);
                }
                match self.raw_waveform.pause() {
                    Ok(()) => {
                        actions.push(DeviceAction::Pause { source: PlaybackSource::Raw });
                    },
                    Err(_) => {},
                }
                match play_samples(&mut self.processed_waveform, spec, source) {
                    Ok(start) => {
                        actions.push(start);
                    },
                    Err(_) => {},
                }
            },
        }
        assert(actions@ =~= old(self).alone(
            source,
            DeviceAction::Start { source, channels: spec.channels, sample_rate: spec.sample_rate },
        ));
        Ok(actions)
    }

    /// Suspends the stream of `source`. Fails with `DeviceError`, and
    /// changes nothing, if it has none.
    pub fn pause(&mut self, source: PlaybackSource) -> (paused: Result<DeviceAction, AudioError>)
        ensures
            old(self).pauses(final(self), source, paused),
            old(self).exclusive() ==> final(self).exclusive(),
    {
        let paused = match source {
            PlaybackSource::Raw => self.raw_waveform.pause(),
            PlaybackSource::Processed => self.processed_waveform.pause(),
        };
        match paused {
            Ok(()) => Ok(DeviceAction::Pause { source }),
            Err(e) => Err(e),
        }
    }

    /// Lets the stream of `source` run again, after pausing the stream of
    /// the other source if it has one. Fails with `DeviceError`, and
    /// changes nothing, if `source` has no stream.
    pub fn resume(&mut self, source: PlaybackSource) -> (resumed: Result<
        Vec<DeviceAction>,
        AudioError,
    >)
        ensures
            old(self).resumes(final(self), source, resumed),
            resumed is Ok ==> final(self).exclusive(),
    {
        let mut actions: Vec<DeviceAction> = Vec::new();
        match source {
            PlaybackSource::Raw => {
                if self.raw_waveform.playing_stream.is_none() {
                    return Err(AudioError::DeviceError);
                }
                match self.processed_waveform.pause() {
                    Ok(()) => {
                        actions.push(DeviceAction::Pause { source: PlaybackSource::Processed });
                    },
                    Err(_) => {},
                }
                let resumed = self.raw_waveform.resume();
            },
            PlaybackSource::Processed => {
                if self.processed_waveform.playing_stream.is_none() {
                    return Err(AudioError::DeviceError);
                }
                match self.raw_waveform.pause() {
                    Ok(()) => {
                        actions.push(DeviceAction::Pause { source: PlaybackSource::Raw });
                    },
                    Err(_) => {},
                }
                let resumed = self.processed_waveform.resume();
            },
        }
        actions.push(DeviceAction::Resume { source });
        assert(actions@ =~= old(self).alone(source, DeviceAction::Resume { source }));
        Ok(actions)
    }

    /// Stops playback of `source`: its stream is given up and its cursor
    /// goes back to the first frame. Returns the release for the device if
    /// there was a stream.
    pub fn stop(&mut self, source: PlaybackSource) -> (released: Option<DeviceAction>)
        ensures
            old(self).stops(final(self), source, released),
            old(self).exclusive() ==> final(self).exclusive(),
    {
        let released = match source {
            PlaybackSource::Raw => self.raw_waveform.stop(),
            PlaybackSource::Processed => self.processed_waveform.stop(),
        };
        if released {
            Some(DeviceAction::Release { source })
        } else {
            None
        }
    }

    /// Starts playback of the recording as it was loaded; see [`SoundApp::play`].
    pub fn play_original(&mut self) -> (started: Result<Vec<DeviceAction>, AudioError>)
        ensures
            old(self).plays(final(self), PlaybackSource::Raw, started),
            old(self).exclusive() ==> final(self).exclusive(),
            started matches Ok(actions) && actions@.len() > 0 ==> final(self).exclusive(),
    {
        self.play(PlaybackSource::Raw)
    }

    /// Starts playback of the processed recording; see [`SoundApp::play`].
    pub fn play_processed(&mut self) -> (started: Result<Vec<DeviceAction>, AudioError>)
        ensures
            old(self).plays(final(self), PlaybackSource::Processed, started),
            old(self).exclusive() ==> final(self).exclusive(),
            started matches Ok(actions) && actions@.len() > 0 ==> final(self).exclusive(),
    {
        self.play(PlaybackSource::Processed)
    }

    /// Suspends the stream of the recording as it was loaded; see
    /// [`SoundApp::pause`].
    pub fn pause_original(&mut self) -> (paused: Result<DeviceAction, AudioError>)
        ensures
            old(self).pauses(final(self), PlaybackSource::Raw, paused),
            old(self).exclusive() ==> final(self).exclusive(),
    {
        self.pause(PlaybackSource::Raw)
    }

    /// Suspends the stream of the processed recording; see
    /// [`SoundApp::pause`].
    pub fn pause_processed(&mut self) -> (paused: Result<DeviceAction, AudioError>)
        ensures
            old(self).pauses(final(self), PlaybackSource::Processed, paused),
            old(self).exclusive() ==> final(self).exclusive(),
    {
        self.pause(PlaybackSource::Processed)
    }

    /// Lets the stream of the recording as it was loaded run again; see
    /// [`SoundApp::resume`].
    pub fn resume_original(&mut self) -> (resumed: Result<Vec<DeviceAction>, AudioError>)
        ensures
            old(self).resumes(final(self), PlaybackSource::Raw, resumed),
            resumed is Ok ==> final(self).exclusive(),
    {
        self.resume(PlaybackSource::Raw)
    }

    /// Lets the stream of the processed recording run again; see
    /// [`SoundApp::resume`].
    pub fn resume_processed(&mut self) -> (resumed: Result<Vec<DeviceAction>, AudioError>)
        ensures
            old(self).resumes(final(self), PlaybackSource::Processed, resumed),
            resumed is Ok ==> final(self).exclusive(),
    {
        self.resume(PlaybackSource::Processed)
    }

    /// Stops playback of the recording as it was loaded; see
    /// [`SoundApp::stop`].
    pub fn stop_original(&mut self) -> (released: Option<DeviceAction>)
        ensures
            old(self).stops(final(self), PlaybackSource::Raw, released),
            old(self).exclusive() ==> final(self).exclusive(),
    {
        self.stop(PlaybackSource::Raw)
    }

    /// Stops playback of the processed recording; see [`SoundApp::stop`].
    pub fn stop_processed(&mut self) -> (released: Option<DeviceAction>)
        ensures
            old(self).stops(final(self), PlaybackSource::Processed, released),
            old(self).exclusive() ==> final(self).exclusive(),
    {
        self.stop(PlaybackSource::Processed)
    }

    /// Takes note that the device could not do what it was asked for
    /// `source`: its stream counts as gone. Returns the error to report.
    pub fn device_failed(&mut self, source: PlaybackSource) -> (error: AudioError)
        ensures
            error == AudioError::DeviceError,
            final(self).same_recording(old(self)),
            final(self).waveform(other_source(source)) == old(self).waveform(other_source(source)),
            final(self).waveform(source).playing_stream is None,
            final(self).waveform(source).current_idx == old(self).waveform(source).current_idx,
            old(self).exclusive() ==> final(self).exclusive(),
    {
        match source {
            PlaybackSource::Raw => {
                self.raw_waveform.playing_stream = None;
            },
            PlaybackSource::Processed => {
                self.processed_waveform.playing_stream = None;
            },
        }
        AudioError::DeviceError
    }

    /// Moves the cursor of one waveform to `frame`, or to the end of its
    /// buffer if `frame` lies beyond it. Nothing else changes.
    pub fn jump_to_position(&mut self, frame: usize, is_original: bool)
        ensures
            final(self).same_recording(old(self)),
            final(self).raw_waveform.playing_stream == old(self).raw_waveform.playing_stream,
            final(self).processed_waveform.playing_stream == old(self).processed_waveform.playing_stream,
            is_original ==> final(self).processed_waveform == old(self).processed_waveform && final(self).raw_waveform.current_idx == (PlaybackCursor {
                frame: if frame <= frame_count(
                    old(self).raw_waveform.samples_raw@.len() as int,
                    old(self).channels(),
                ) {
                    frame
                } else {
                    frame_count(
                        old(self).raw_waveform.samples_raw@.len() as int,
                        old(self).channels(),
                    ) as usize
                },
                completion_sent: false,
            }),
            !is_original ==> final(self).raw_waveform == old(self).raw_waveform && final(self).processed_waveform.current_idx == (PlaybackCursor {
                frame: if frame <= frame_count(
                    old(self).processed_waveform.samples_raw@.len() as int,
                    old(self).channels(),
                ) {
                    frame
                } else {
                    frame_count(
                        old(self).processed_waveform.samples_raw@.len() as int,
                        old(self).channels(),
                    ) as usize
                },
                completion_sent: false,
            }),
    {
        let channels: u16 = match self.spec {
            Some(spec) => spec.channels,
            None => 0,
        };
        if is_original {
            self.raw_waveform.seek(frame, channels);
        } else {
            self.processed_waveform.seek(frame, channels);
        }
    }

    /// Fills `out` for one callback of the device from the waveform of
    /// `source`; see [`PlaybackCursor::render`]. Returns the source when
    /// the end of its playback is to be reported.
    pub fn render(&mut self, source: PlaybackSource, out: &mut [i16]) -> (completed: Option<
        PlaybackSource,
    >)
        ensures
            final(self).same_recording(old(self)),
            final(self).waveform(other_source(source)) == old(self).waveform(other_source(source)),
            final(self).waveform(source).playing_stream == old(self).waveform(
                source,
            ).playing_stream,
            final(out)@ == rendered(
                old(self).waveform(source).samples_raw@,
                old(self).channels(),
                old(self).waveform(source).current_idx.frame as int,
                old(out)@.len() as int,
            ),
            final(self).waveform(source).current_idx.frame == old(self).waveform(
                source,
            ).current_idx.frame + frames_played(
                old(self).waveform(source).samples_raw@.len() as int,
                old(self).channels(),
                old(self).waveform(source).current_idx.frame as int,
                old(out)@.len() as int,
            ),
            final(self).waveform(source).current_idx.completion_sent == (old(self).waveform(
                source,
            ).current_idx.completion_sent || runs_out(
                old(self).waveform(source).samples_raw@.len() as int,
                old(self).channels(),
                old(self).waveform(source).current_idx.frame as int,
                old(out)@.len() as int,
            )),
            completed == if !old(self).waveform(source).current_idx.completion_sent && runs_out(
                old(self).waveform(source).samples_raw@.len() as int,
                old(self).channels(),
                old(self).waveform(source).current_idx.frame as int,
                old(out)@.len() as int,
            ) {
                Some(source)
            } else {
                None
            },
    {
        let channels: u16 = match self.spec {
            Some(spec) => spec.channels,
            None => 0,
        };
        let completed = match source {
            PlaybackSource::Raw => self.raw_waveform.render(channels, out),
            PlaybackSource::Processed => self.processed_waveform.render(channels, out),
        };
        if completed {
            Some(source)
        } else {
            None
        }
    }
}

} // verus!
