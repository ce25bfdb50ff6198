use vstd::prelude::*;
use vstd::arithmetic::mul::{lemma_mul_inequality, lemma_mul_strict_inequality};
use crate::error::AudioError;
use crate::laws::{lemma_cut_idempotent, lemma_cut_never_longer, lemma_zero_threshold_keeps_all};
use crate::pcm::PcmBuffer;
use crate::silence::{
    lemma_frame_span, lemma_frames_tile, lemma_interval_frames, lemma_kept_copies,
    lemma_kept_skips, lemma_long_run_removed, lemma_loud_frame_kept, lemma_run_in_bounds,
    lemma_short_run_kept, magnitude, magnitude_sum, silence_model, SilenceInterval, SilenceModel,
    SilenceParams, FULL_SCALE,
};

verus! {

/// What a pass is asked for.
#[derive(Clone, Copy, Debug, PartialEq, Eq, Structural)]
pub enum PassMode {
    /// Only the intervals of silence.
    Detect,
    /// The intervals, and the samples that are left when they are cut.
    Remove,
}

/// How far a pass has come: `done` of `total` frames.
#[derive(Clone, Copy, Debug, PartialEq, Eq, Structural)]
pub struct Progress {
    pub done: usize,
    pub total: usize,
}

/// What a finished pass hands over.
#[derive(Clone, Debug)]
pub struct PassOutput {
    /// The silence that is cut, as half-open intervals of sample indices.
    pub intervals: Vec<SilenceInterval>,
    /// The samples that are left; present in `Remove` mode only.
    pub samples: Option<Vec<i16>>,
}

/// The settings under which a buffer can be scanned at all: at least one
/// channel, at least one frame per millisecond, a threshold in `[0, 1)`.
pub open spec fn settings_valid(buffer: &PcmBuffer, params: &SilenceParams) -> bool {
    &&& buffer.channel_count > 0
    &&& buffer.sample_rate >= 1000
    &&& params.threshold.valid()
}

/// The error with which a scan of `buffer` is turned down, if it is:
/// `InvalidInput` for settings that are not valid, and otherwise
/// `CorruptAudioData` for a last frame that is incomplete.
pub open spec fn rejection(buffer: &PcmBuffer, params: &SilenceParams) -> Option<AudioError> {
    if !settings_valid(buffer, params) {
        Some(AudioError::InvalidInput)
    } else if !buffer.aligned() {
        Some(AudioError::CorruptAudioData)
    } else {
        None
    }
}

/// A buffer that is not turned down has a well-formed model.
pub proof fn lemma_accepted_model(buffer: &PcmBuffer, params: &SilenceParams)
    requires
        rejection(buffer, params) is None,
    ensures
        silence_model(buffer, params).wf(),
{
    let ms = params.min_silence_ms as int;
    let rate = buffer.sample_rate as int;
    assert(ms * rate / 1000 >= 0) by (nonlinear_arith)
        requires
            ms >= 0,
            rate >= 0,
    ;
    assert(buffer.samples@.len() == buffer.samples.len());
}

/// What a pass works on and what it is asked for; fixed while it runs.
#[derive(Clone, Copy)]
struct PassPlan<'a> {
    buffer: &'a PcmBuffer,
    params: SilenceParams,
    mode: PassMode,
    min_frames: u128,
    frames: usize,
}

/// How far a pass has come and what it has decided.
struct PassState {
    /// The number of frames looked at.
    position: usize,
    /// The first frame of the open run; `position` when no run is open.
    run_start: usize,
    /// The runs before `run_start` that are cut.
    intervals: Vec<SilenceInterval>,
    /// In `Remove` mode, what is kept of the frames before `run_start`.
    kept: Vec<i16>,
}

/// One linear pass over a buffer, resumable between frames.
///
/// The pass looks at one frame after the other. A run of silent frames
/// stays open until a frame that is not silent, or the end of the buffer,
/// decides whether it is long enough to be cut.
pub struct SilencePass<'a> {
    plan: PassPlan<'a>,
    state: PassState,
}

/// Appends the samples `from..to` of `samples` to `kept`.
fn append_samples(kept: &mut Vec<i16>, samples: &Vec<i16>, from: usize, to: usize)
    requires
        from <= to <= samples@.len(),
    ensures
        final(kept)@ == old(kept)@ + samples@.subrange(from as int, to as int),
{
    let mut at: usize = from;
    while at < to
        invariant
            from <= at <= to <= samples@.len(),
            kept@ == old(kept)@ + samples@.subrange(from as int, at as int),
        decreases to - at,
    {
        kept.push(samples[at]);
        at = at + 1;
        assert(samples@.subrange(from as int, at as int) =~= samples@.subrange(
            from as int,
            at - 1,
        ).push(samples@[at - 1]));
    }
}

/// `found` lists, in increasing order and without touching, exactly the
/// runs of `m` that are cut and that end before frame `bound`.
spec fn detected_before(m: SilenceModel, found: Seq<SilenceInterval>, bound: int) -> bool {
    &&& forall|i: int|
        0 <= i < found.len() ==> m.is_cut(#[trigger] found[i]) && found[i].1 < bound * m.channels
    &&& forall|i: int, j: int| 0 <= i < j < found.len() ==> found[i].1 < found[j].0
    &&& forall|s: int, e: int| #[trigger]
        m.qualifies(s, e) && e < bound ==> found.contains(m.interval(s, e))
}

impl PassState {
    /// The state before the first frame.
    fn start() -> (state: PassState)
        ensures
            state.position == 0,
            state.run_start == 0,
            state.intervals@ == Seq::<SilenceInterval>::empty(),
            state.kept@ == Seq::<i16>::empty(),
    {
        PassState { position: 0, run_start: 0, intervals: Vec::new(), kept: Vec::new() }
    }
}

impl<'a> PassPlan<'a> {
    /// The buffer and settings of the pass, as mathematics.
    spec fn model(&self) -> SilenceModel {
        silence_model(self.buffer, &self.params)
    }

    /// The buffer can be scanned, and the plan holds its frame counts.
    spec fn valid(&self) -> bool {
        &&& self.model().wf()
        &&& self.min_frames == self.model().min_frames
        &&& self.frames == self.model().frames()
    }

    /// `state` is a state of this pass: the open run is silent and starts
    /// after a frame that is not, and everything before it has been decided.
    spec fn fits(&self, state: PassState) -> bool {
        let m = self.model();
        &&& state.run_start <= state.position <= self.frames
        &&& forall|f: int| state.run_start <= f < state.position ==> m.silent(f)
        &&& !m.silent(state.run_start - 1)
        &&& detected_before(m, state.intervals@, state.run_start as int)
        &&& state.kept@ == if self.mode == PassMode::Remove {
            m.kept(state.run_start as int)
        } else {
            Seq::<i16>::empty()
        }
    }

    /// The state before the first frame is a state of every pass.
    proof fn lemma_start_fits(&self, state: PassState)
        requires
            self.valid(),
            state.position == 0,
            state.run_start == 0,
            state.intervals@ == Seq::<SilenceInterval>::empty(),
            state.kept@ == Seq::<i16>::empty(),
        ensures
            self.fits(state),
    {
        let m = self.model();
        lemma_frames_tile(m);
        assert forall|s: int, e: int| #[trigger] m.qualifies(s, e) implies e >= 0 by {
            lemma_run_in_bounds(m, s, e);
        }
    }

    /// Whether frame `f` is silent.
    fn frame_is_silent(&self, f: usize) -> (quiet: bool)
        requires
            self.valid(),
            f < self.frames,
        ensures
            quiet == self.model().silent(f as int),
    {
        let ghost m = self.model();
        let channels: usize = self.buffer.channel_count as usize;
        let total: usize = self.buffer.samples.len();
        proof {
            lemma_frame_span(m, f as int);
        }
        let base: usize = f * channels;
        let mut sum: u64 = 0;
        let mut ch: usize = 0;
        while ch < channels
            invariant
                ch <= channels,
                channels <= 65535,
                base + channels <= total == self.buffer.samples@.len(),
                sum == magnitude_sum(self.buffer.samples@.subrange(base as int, base + ch)),
                sum <= 32768 * ch,
            decreases channels - ch,
        {
            let sample: i16 = self.buffer.samples[base + ch];
            let wide: i32 = sample as i32;
            let mag: u64 = if wide < 0 {
                (-wide) as u64
            } else {
                wide as u64
            };
            proof {
                let upto = self.buffer.samples@.subrange(base as int, base + ch + 1);
                assert(upto.drop_last() =~= self.buffer.samples@.subrange(base as int, base + ch));
                assert(upto.last() == sample);
                assert(mag == magnitude(sample));
            }
            sum = sum + mag;
            ch = ch + 1;
        }
        assert(self.buffer.samples@.subrange(base as int, base + channels) == m.frame(f as int));
        let denom: u64 = self.params.threshold.denom as u64;
        let numer: u64 = self.params.threshold.numer as u64;
        let wide_channels: u64 = channels as u64;
        let full_scale: u64 = FULL_SCALE as u64;
        assert(sum * denom <= 0x7fff_ffff_ffff_ffff) by (nonlinear_arith)
            requires
                sum <= 32768 * 65535,
                denom <= 0xffff_ffff,
        ;
        assert(numer * full_scale * wide_channels <= 0x7fff_ffff_ffff_ffff && numer * full_scale
            <= 0x7fff_ffff_ffff_ffff) by (nonlinear_arith)
            requires
                numer <= 0xffff_ffff,
                full_scale == 32767,
                wide_channels <= 65535,
        ;
        sum * denom < numer * full_scale * wide_channels
    }

    /// Decides the open run, which ends where the pass stands: cuts it if
    /// it is long enough, keeps it otherwise.
    fn settle_run(&self, state: &mut PassState)
        requires
            self.valid(),
            self.fits(*old(state)),
            !self.model().silent(old(state).position as int),
        ensures
            final(state).position == old(state).position,
            final(state).run_start == old(state).run_start,
            detected_before(self.model(), final(state).intervals@, old(state).position + 1),
            final(state).kept@ == if self.mode == PassMode::Remove {
                self.model().kept(old(state).position as int)
            } else {
                Seq::<i16>::empty()
            },
    {
        let ghost m = self.model();
        let ghost before = state.intervals@;
        let start: usize = state.run_start;
        let end: usize = state.position;
        let channels: usize = self.buffer.channel_count as usize;
        let total: usize = self.buffer.samples.len();
        let length: usize = end - start;
        proof {
            lemma_frames_tile(m);
            lemma_mul_inequality(start as int, end as int, m.channels);
            lemma_mul_inequality(end as int, m.frames(), m.channels);
            lemma_mul_strict_inequality(end as int, end + 1, m.channels);
            lemma_interval_frames(m, start as int);
            lemma_interval_frames(m, end as int);
        }
        let first: usize = start * channels;
        let last: usize = end * channels;
        if length > 0 && length as u128 >= self.min_frames {
            assert(m.qualifies(start as int, end as int));
            state.intervals.push((first, last));
            proof {
                let after = state.intervals@;
                assert(m.is_cut((first, last)));
                assert forall|s: int, e: int| #[trigger]
                    m.qualifies(s, e) && e < end + 1 implies after.contains(m.interval(s, e)) by {
                    if e < start {
                        let i = choose|i: int| 0 <= i < before.len() && before[i] == m.interval(s, e);
                        assert(after[i] == m.interval(s, e));
                    } else {
                        assert(!m.silent(e));
                        assert(e == end);
                        assert(!m.silent(s - 1));
                        assert(s == start);
                        assert(after[before.len() as int] == m.interval(s, e));
                    }
                }
                lemma_long_run_removed(m, start as int, end as int);
                lemma_kept_skips(m, start as int, end as int);
            }
        } else {
            proof {
                assert forall|s: int, e: int| #[trigger]
                    m.qualifies(s, e) && e < end + 1 implies before.contains(m.interval(s, e)) by {
                    if e >= start {
                        assert(!m.silent(e));
                        assert(e == end);
                        assert(!m.silent(s - 1));
                        assert(s == start);
                    }
                }
                if length > 0 {
                    assert(m.is_run(start as int, end as int));
                    lemma_short_run_kept(m, start as int, end as int);
                }
                lemma_kept_copies(m, start as int, end as int);
            }
            match self.mode {
                PassMode::Remove => {
                    append_samples(&mut state.kept, &self.buffer.samples, first, last);
                },
                PassMode::Detect => {},
            }
        }
    }

    /// Looks at the next frame.
    fn examine_next(&self, state: &mut PassState)
        requires
            self.valid(),
            self.fits(*old(state)),
            old(state).position < self.frames,
        ensures
            self.fits(*final(state)),
            final(state).position == old(state).position + 1,
    {
        let ghost m = self.model();
        let at: usize = state.position;
        let quiet = self.frame_is_silent(at);
        if quiet {
            state.position = at + 1;
        } else {
            self.settle_run(state);
            let channels: usize = self.buffer.channel_count as usize;
            let total: usize = self.buffer.samples.len();
            proof {
                lemma_frame_span(m, at as int);
                lemma_loud_frame_kept(m, at as int);
            }
            match self.mode {
                PassMode::Remove => {
                    append_samples(
                        &mut state.kept,
                        &self.buffer.samples,
                        at * channels,
                        at * channels + channels,
                    );
                },
                PassMode::Detect => {},
            }
            state.position = at + 1;
            state.run_start = at + 1;
        }
    }

    /// Looks at the frames up to frame `stop`.
    fn advance(&self, state: &mut PassState, stop: usize)
        requires
            self.valid(),
            self.fits(*old(state)),
            old(state).position <= stop <= self.frames,
        ensures
            self.fits(*final(state)),
            final(state).position == stop,
    {
        while state.position < stop
            invariant
                self.valid(),
                self.fits(*state),
                state.position <= stop <= self.frames,
            decreases stop - state.position,
        {
            self.examine_next(state);
        }
    }

    /// Looks at the frames that are left and decides the last run.
    fn run_out(&self, state: PassState) -> (parts: (Vec<SilenceInterval>, Vec<i16>))
        requires
            self.valid(),
            self.fits(state),
        ensures
            self.model().is_detection(parts.0@),
            parts.1@ == if self.mode == PassMode::Remove {
                self.model().kept(self.model().frames())
            } else {
                Seq::<i16>::empty()
            },
    {
        let mut state = state;
        self.advance(&mut state, self.frames);
        self.settle_run(&mut state);
        proof {
            let m = self.model();
            assert forall|s: int, e: int| #[trigger] m.qualifies(s, e) implies e < m.frames() + 1 by {
                lemma_run_in_bounds(m, s, e);
            }
        }
        (state.intervals, state.kept)
    }
}

impl<'a> SilencePass<'a> {
    /// The buffer and settings of the pass, as mathematics.
    pub closed spec fn model(&self) -> SilenceModel {
        self.plan.model()
    }

    /// What the pass was asked for.
    pub closed spec fn mode(&self) -> PassMode {
        self.plan.mode
    }

    /// The number of frames that the pass has looked at.
    pub closed spec fn examined(&self) -> int {
        self.state.position as int
    }

    /// Every pass is in a state of its own plan.
    #[verifier::type_invariant]
    spec fn consistent(&self) -> bool {
        self.plan.valid() && self.plan.fits(self.state)
    }

    /// Starts a pass at the first frame.
    ///
    /// Fails exactly when [`rejection`] names an error, and with that error.
    pub fn new(buffer: &'a PcmBuffer, params: SilenceParams, mode: PassMode) -> (started: Result<
        SilencePass<'a>,
        AudioError,
    >)
        ensures
            match started {
                Ok(pass) => {
                    &&& rejection(buffer, &params) is None
                    &&& pass.model() == silence_model(buffer, &params)
                    &&& pass.mode() == mode
                    &&& pass.examined() == 0
                },
                Err(e) => rejection(buffer, &params) == Some(e),
            },
    {
        if buffer.channel_count == 0 || buffer.sample_rate < 1000 || !params.threshold.is_valid() {
            return Err(AudioError::InvalidInput);
        }
        let channels: usize = buffer.channel_count as usize;
        if buffer.samples.len() % channels != 0 {
            return Err(AudioError::CorruptAudioData);
        }
        let ms: u128 = params.min_silence_ms as u128;
        let rate: u128 = buffer.sample_rate as u128;
        assert(ms * rate <= 0xffff_ffff_ffff_ffff_ffff_ffff_ffff && 0 <= ms * rate)
            by (nonlinear_arith)
            requires
                ms <= 0xffff_ffff_ffff_ffff,
                rate <= 0xffff_ffff,
        ;
        let min_frames: u128 = ms * rate / 1000;
        let frames: usize = buffer.samples.len() / channels;
        let plan = PassPlan { buffer, params, mode, min_frames, frames };
        let state = PassState::start();
        proof {
            plan.lemma_start_fits(state);
        }
        Ok(SilencePass { plan, state })
    }

    /// Looks at up to `max_frames` further frames and reports how far the
    /// pass has come.
    pub fn step(&mut self, max_frames: usize) -> (progress: Progress)
        ensures
            final(self).model() == old(self).model(),
            final(self).mode() == old(self).mode(),
            final(self).examined() == if old(self).examined() + max_frames <= old(self).model().frames() {
                old(self).examined() + max_frames
            } else {
                old(self).model().frames()
            },
            progress.done == final(self).examined(),
            progress.total == old(self).model().frames(),
    {
        proof {
            use_type_invariant(&*self);
        }
        let plan = self.plan;
        let mut state = PassState::start();
        proof {
            plan.lemma_start_fits(state);
        }
        std::mem::swap(&mut state, &mut self.state);
        let remaining: usize = plan.frames - state.position;
        let todo: usize = if max_frames < remaining {
            max_frames
        } else {
            remaining
        };
        let stop: usize = state.position + todo;
        plan.advance(&mut state, stop);
        self.state = state;
        Progress { done: stop, total: plan.frames }
    }

    /// How far the pass has come.
    pub fn progress(&self) -> (progress: Progress)
        ensures
            progress.done == self.examined(),
            progress.total == self.model().frames(),
            progress.done <= progress.total,
    {
        proof {
            use_type_invariant(self);
        }
        Progress { done: self.state.position, total: self.plan.frames }
    }

    /// Whether every frame has been looked at.
    pub fn is_finished(&self) -> (finished: bool)
        ensures
            finished == (self.examined() == self.model().frames()),
    {
        proof {
            use_type_invariant(self);
        }
        self.state.position == self.plan.frames
    }

    /// Looks at the frames that are left and hands over the result: the
    /// intervals that are cut and, in `Remove` mode, the samples outside them.
    pub fn finish(self) -> (output: PassOutput)
        ensures
            self.model().is_detection(output.intervals@),
            match output.samples {
                Some(samples) => self.mode() == PassMode::Remove && samples@
                    == self.model().kept(self.model().frames()),
                None => self.mode() == PassMode::Detect,
            },
    {
        proof {
            use_type_invariant(&self);
        }
        let plan = self.plan;
        let (intervals, kept) = plan.run_out(self.state);
        match plan.mode {
            PassMode::Remove => PassOutput { intervals, samples: Some(kept) },
            PassMode::Detect => PassOutput { intervals, samples: None },
        }
    }

    /// Looks at the frames that are left and hands over what is kept.
    fn finish_cut(self) -> (kept: Vec<i16>)
        ensures
            kept@ == if self.mode() == PassMode::Remove {
                self.model().kept(self.model().frames())
            } else {
                Seq::<i16>::empty()
            },
    {
        proof {
            use_type_invariant(&self);
        }
        let plan = self.plan;
        let (_, kept) = plan.run_out(self.state);
        kept
    }
}

/// Finds the silence in `buffer`: every maximal run of frames whose mean
/// magnitude stays below the threshold for at least the minimum duration,
/// as half-open intervals of sample indices in increasing order.
///
/// Fails exactly when [`rejection`] names an error, and with that error.
pub fn detect(buffer: &PcmBuffer, params: &SilenceParams) -> (found: Result<
    Vec<SilenceInterval>,
    AudioError,
>)
    ensures
        match found {
            Ok(intervals) => rejection(buffer, params) is None && silence_model(
                buffer,
                params,
            ).is_detection(intervals@),
            Err(e) => rejection(buffer, params) == Some(e),
        },
{
    match SilencePass::new(buffer, *params, PassMode::Detect) {
        Ok(pass) => Ok(pass.finish().intervals),
        Err(e) => Err(e),
    }
}

/// Cuts the silence out of `buffer`: the result holds, in order and
/// unchanged, the frames that lie in no run that [`detect`] reports. It is
/// never longer than `buffer`, it is `buffer` again under a threshold of
/// zero, and a second cut with the same settings would return it as it is.
///
/// Fails exactly when [`rejection`] names an error, and with that error.
pub fn remove(buffer: &PcmBuffer, params: &SilenceParams) -> (cut: Result<PcmBuffer, AudioError>)
    ensures
        match cut {
            Ok(shorter) => {
                let m = silence_model(buffer, params);
                &&& rejection(buffer, params) is None
                &&& shorter.samples@ == m.kept(m.frames())
                &&& shorter.channel_count == buffer.channel_count
                &&& shorter.sample_rate == buffer.sample_rate
                &&& shorter.samples@.len() <= buffer.samples@.len()
                &&& params.threshold.numer == 0 ==> shorter.samples@ == buffer.samples@
                &&& silence_model(&shorter, params) == m.after_cut()
                &&& m.after_cut().kept(m.after_cut().frames()) == shorter.samples@
            },
            Err(e) => rejection(buffer, params) == Some(e),
        },
{
    match SilencePass::new(buffer, *params, PassMode::Remove) {
        Ok(pass) => {
            let samples = pass.finish_cut();
            proof {
                let m = silence_model(buffer, params);
                lemma_accepted_model(buffer, params);
                lemma_cut_never_longer(m);
                lemma_cut_idempotent(m);
                if params.threshold.numer == 0 {
                    lemma_zero_threshold_keeps_all(m);
                }
            }
            Ok(
                PcmBuffer {
                    samples,
                    channel_count: buffer.channel_count,
                    sample_rate: buffer.sample_rate,
                },
            )
        },
        Err(e) => Err(e),
    }
}

} // verus!
