use vstd::prelude::*;
use vstd::arithmetic::div_mod::{
    lemma_div_by_multiple, lemma_fundamental_div_mod, lemma_mod_multiples_basic,
};
use vstd::arithmetic::mul::{lemma_mul_inequality, lemma_mul_is_distributive_add_other_way};
use crate::pcm::PcmBuffer;

verus! {

/// The magnitude that counts as full scale when a sample is normalised.
/// It is the largest positive sample, so the most negative sample lies
/// slightly beyond full scale.
pub const FULL_SCALE: u16 = 32767;

/// An amplitude threshold as the exact ratio `numer / denom` of full scale.
#[derive(Clone, Copy, Debug, PartialEq, Eq, Structural)]
pub struct Threshold {
    pub numer: u32,
    pub denom: u32,
}

impl Threshold {
    /// The ratio is defined and lies in `[0, 1)`.
    pub open spec fn valid(self) -> bool {
        self.denom > 0 && self.numer < self.denom
    }

    /// Whether the ratio is defined and lies in `[0, 1)`.
    pub fn is_valid(&self) -> (ok: bool)
        ensures
            ok == self.valid(),
    {
        self.denom > 0 && self.numer < self.denom
    }
}

/// A stretch of silence as a half-open interval `(start, end)` of sample
/// indices, both on frame boundaries.
pub type SilenceInterval = (usize, usize);

/// What counts as silence: how quiet, and for how long.
#[derive(Clone, Copy, Debug, PartialEq, Eq, Structural)]
pub struct SilenceParams {
    pub threshold: Threshold,
    pub min_silence_ms: usize,
}

/// The magnitude of one sample.
pub open spec fn magnitude(sample: i16) -> int {
    if sample < 0 {
        -(sample as int)
    } else {
        sample as int
    }
}

/// The sum of the magnitudes of some samples.
pub open spec fn magnitude_sum(samples: Seq<i16>) -> int
    decreases samples.len(),
{
    if samples.len() == 0 {
        0
    } else {
        magnitude_sum(samples.drop_last()) + magnitude(samples.last())
    }
}

/// The shortest run, in frames, that lasts `min_silence_ms` at `sample_rate`.
pub open spec fn min_run_frames(min_silence_ms: int, sample_rate: int) -> int {
    min_silence_ms * sample_rate / 1000
}

/// What a scan looks at, as mathematics: the samples, the number of
/// channels that share a frame, the threshold and the shortest run that
/// counts as silence.
pub struct SilenceModel {
    pub samples: Seq<i16>,
    pub channels: int,
    pub threshold: Threshold,
    pub min_frames: int,
}

/// The model of a buffer under given settings.
pub open spec fn silence_model(buffer: &PcmBuffer, params: &SilenceParams) -> SilenceModel {
    SilenceModel {
        samples: buffer.samples@,
        channels: buffer.channel_count as int,
        threshold: params.threshold,
        min_frames: min_run_frames(params.min_silence_ms as int, buffer.sample_rate as int),
    }
}

impl SilenceModel {
    /// The model is one of a buffer that can be scanned: the samples fit
    /// in memory and fill whole frames, and the settings are in range.
    pub open spec fn wf(self) -> bool {
        &&& self.channels > 0
        &&& self.samples.len() <= usize::MAX
        &&& self.samples.len() as int % self.channels == 0
        &&& self.threshold.valid()
        &&& self.min_frames >= 0
    }

    /// The number of frames.
    pub open spec fn frames(self) -> int {
        self.samples.len() as int / self.channels
    }

    /// The samples of frame `f`, one per channel.
    pub open spec fn frame(self, f: int) -> Seq<i16> {
        self.samples.subrange(f * self.channels, (f + 1) * self.channels)
    }

    /// Frame `f` exists and its mean magnitude, as a fraction of full scale,
    /// is strictly below the threshold: the sum of its magnitudes over
    /// `FULL_SCALE * channels` is less than `numer / denom`, compared
    /// exactly, without rounding.
    pub open spec fn silent(self, f: int) -> bool {
        &&& 0 <= f < self.frames()
        &&& magnitude_sum(self.frame(f)) * self.threshold.denom
            < self.threshold.numer * FULL_SCALE * self.channels
    }

    /// Frames `s..e` are a silence run: all silent, at least one, and
    /// bounded on both sides by a frame that is not silent or by the end
    /// of the buffer.
    pub open spec fn is_run(self, s: int, e: int) -> bool {
        &&& s < e
        &&& forall|f: int| s <= f < e ==> self.silent(f)
        &&& !self.silent(s - 1)
        &&& !self.silent(e)
    }

    /// A silence run that lasts long enough to be cut.
    pub open spec fn qualifies(self, s: int, e: int) -> bool {
        self.is_run(s, e) && e - s >= self.min_frames
    }

    /// Frame `f` lies in a run that is cut.
    pub open spec fn removed(self, f: int) -> bool {
        exists|s: int, e: int| #[trigger] self.qualifies(s, e) && s <= f < e
    }

    /// The samples of the first `n` frames that survive the cut, in order.
    pub open spec fn kept(self, n: int) -> Seq<i16>
        decreases n,
    {
        if n <= 0 {
            Seq::empty()
        } else if self.removed(n - 1) {
            self.kept(n - 1)
        } else {
            self.kept(n - 1) + self.frame(n - 1)
        }
    }

    /// The run of frames `s..e` as a half-open interval of sample indices.
    pub open spec fn interval(self, s: int, e: int) -> SilenceInterval {
        ((s * self.channels) as usize, (e * self.channels) as usize)
    }

    /// `found` starts and ends on frame boundaries and covers a run that is cut.
    pub open spec fn is_cut(self, found: SilenceInterval) -> bool {
        &&& found.0 as int % self.channels == 0
        &&& found.1 as int % self.channels == 0
        &&& self.qualifies(found.0 as int / self.channels, found.1 as int / self.channels)
    }

    /// `found` lists, in increasing order and without touching, exactly
    /// the runs of the buffer that are cut.
    pub open spec fn is_detection(self, found: Seq<SilenceInterval>) -> bool {
        &&& forall|i: int| 0 <= i < found.len() ==> self.is_cut(#[trigger] found[i])
        &&& forall|i: int, j: int| 0 <= i < j < found.len() ==> found[i].1 < found[j].0
        &&& forall|s: int, e: int| #[trigger]
            self.qualifies(s, e) ==> found.contains(self.interval(s, e))
    }
}

/// The frames of a well-formed model tile its samples exactly.
pub proof fn lemma_frames_tile(m: SilenceModel)
    requires
        m.wf(),
    ensures
        m.frames() >= 0,
        m.frames() * m.channels == m.samples.len(),
{
    let len = m.samples.len() as int;
    lemma_fundamental_div_mod(len, m.channels);
    assert(m.channels * (len / m.channels) == (len / m.channels) * m.channels) by (nonlinear_arith);
    assert(len / m.channels >= 0) by (nonlinear_arith)
        requires
            len >= 0,
            m.channels > 0,
    ;
}

/// Where frame `f` lies among the samples.
pub proof fn lemma_frame_span(m: SilenceModel, f: int)
    requires
        m.wf(),
        0 <= f < m.frames(),
    ensures
        0 <= f * m.channels,
        (f + 1) * m.channels == f * m.channels + m.channels,
        (f + 1) * m.channels <= m.samples.len(),
        m.frame(f).len() == m.channels,
{
    lemma_frames_tile(m);
    lemma_mul_is_distributive_add_other_way(m.channels, f, 1);
    lemma_mul_inequality(f + 1, m.frames(), m.channels);
    lemma_mul_inequality(0, f, m.channels);
}

/// Frame indices and sample indices of frame starts determine each other.
pub proof fn lemma_interval_frames(m: SilenceModel, s: int)
    requires
        m.channels > 0,
        0 <= s,
    ensures
        0 <= s * m.channels,
        (s * m.channels) / m.channels == s,
        (s * m.channels) % m.channels == 0,
{
    lemma_mul_inequality(0, s, m.channels);
    lemma_div_by_multiple(s, m.channels);
    lemma_mod_multiples_basic(s, m.channels);
}

/// A silence run lies within the buffer.
pub proof fn lemma_run_in_bounds(m: SilenceModel, s: int, e: int)
    requires
        m.is_run(s, e),
    ensures
        0 <= s < e <= m.frames(),
{
    assert(m.silent(s));
    assert(m.silent(e - 1));
}

/// A frame lies in at most one silence run.
pub proof fn lemma_run_unique(m: SilenceModel, f: int, s1: int, e1: int, s2: int, e2: int)
    requires
        m.is_run(s1, e1),
        m.is_run(s2, e2),
        s1 <= f < e1,
        s2 <= f < e2,
    ensures
        s1 == s2,
        e1 == e2,
{
    if s1 < s2 {
        assert(m.silent(s2 - 1));
    }
    if s2 < s1 {
        assert(m.silent(s1 - 1));
    }
    if e1 < e2 {
        assert(m.silent(e1));
    }
    if e2 < e1 {
        assert(m.silent(e2));
    }
}

/// Every frame of a run that is cut is removed.
pub proof fn lemma_long_run_removed(m: SilenceModel, s: int, e: int)
    requires
        m.qualifies(s, e),
    ensures
        forall|f: int| s <= f < e ==> m.removed(f),
{
}

/// No frame of a run that is too short is removed.
pub proof fn lemma_short_run_kept(m: SilenceModel, s: int, e: int)
    requires
        m.is_run(s, e),
        e - s < m.min_frames,
    ensures
        forall|f: int| s <= f < e ==> !m.removed(f),
{
    assert forall|f: int| s <= f < e implies !m.removed(f) by {
        if m.removed(f) {
            let (s2, e2) = choose|s2: int, e2: int| #[trigger] m.qualifies(s2, e2) && s2 <= f < e2;
            lemma_run_unique(m, f, s, e, s2, e2);
        }
    }
}

/// A frame that is not silent is never removed.
pub proof fn lemma_loud_frame_kept(m: SilenceModel, f: int)
    requires
        !m.silent(f),
    ensures
        !m.removed(f),
{
}

/// Frames that are all removed add nothing to what is kept.
pub proof fn lemma_kept_skips(m: SilenceModel, a: int, b: int)
    requires
        0 <= a <= b,
        forall|f: int| a <= f < b ==> m.removed(f),
    ensures
        m.kept(b) == m.kept(a),
    decreases b - a,
{
    if a < b {
        lemma_kept_skips(m, a, b - 1);
    }
}

/// Frames of which none is removed are kept as they are.
pub proof fn lemma_kept_copies(m: SilenceModel, a: int, b: int)
    requires
        m.wf(),
        0 <= a <= b <= m.frames(),
        forall|f: int| a <= f < b ==> !m.removed(f),
    ensures
        m.kept(b) == m.kept(a) + m.samples.subrange(a * m.channels, b * m.channels),
    decreases b - a,
{
    lemma_frames_tile(m);
    if a < b {
        lemma_kept_copies(m, a, b - 1);
        lemma_frame_span(m, b - 1);
        lemma_mul_inequality(a, b - 1, m.channels);
        lemma_mul_inequality(0, a, m.channels);
        assert(m.samples.subrange(a * m.channels, b * m.channels) =~= m.samples.subrange(
            a * m.channels,
            (b - 1) * m.channels,
        ) + m.frame(b - 1));
        assert(m.kept(b) =~= m.kept(a) + m.samples.subrange(a * m.channels, b * m.channels));
    } else {
        lemma_mul_inequality(0, a, m.channels);
        lemma_mul_inequality(a, m.frames(), m.channels);
        assert(m.kept(b) =~= m.kept(a) + m.samples.subrange(a * m.channels, b * m.channels));
    }
}

} // verus!
