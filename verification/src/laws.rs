//! What holds of silence removal on every buffer: it never lengthens, it
//! cuts exactly what detection reports, it decides a run by its length
//! alone, and cutting twice is cutting once.

use vstd::prelude::*;
use vstd::arithmetic::div_mod::lemma_fundamental_div_mod;
use vstd::arithmetic::mul::{
    lemma_mul_inequality, lemma_mul_is_distributive_add_other_way, lemma_mul_strict_inequality,
};
use crate::silence::{
    lemma_frame_span, lemma_frames_tile, lemma_interval_frames, lemma_kept_copies,
    lemma_kept_skips, lemma_long_run_removed, lemma_loud_frame_kept, lemma_run_in_bounds,
    lemma_short_run_kept, magnitude_sum, SilenceInterval, SilenceModel, FULL_SCALE,
};

verus! {

impl SilenceModel {
    /// The number of frames among the first `n` that survive the cut.
    pub open spec fn kept_frames(self, n: int) -> int
        decreases n,
    {
        if n <= 0 {
            0
        } else if self.removed(n - 1) {
            self.kept_frames(n - 1)
        } else {
            self.kept_frames(n - 1) + 1
        }
    }

    /// The model of what is left after the cut, under the same settings.
    pub open spec fn after_cut(self) -> SilenceModel {
        SilenceModel { samples: self.kept(self.frames()), ..self }
    }

    /// The first frame of the stretch of silent frames that reaches frame `f`.
    pub open spec fn run_first(self, f: int) -> int
        decreases f,
    {
        if f > 0 && self.silent(f - 1) {
            self.run_first(f - 1)
        } else {
            f
        }
    }

    /// The frame behind the stretch of silent frames that starts at frame `f`.
    pub open spec fn run_limit(self, f: int) -> int
        decreases self.frames() - f,
    {
        if self.silent(f) {
            self.run_limit(f + 1)
        } else {
            f
        }
    }

    /// Sample index `at` lies in one of the intervals of `found`.
    pub open spec fn covered(found: Seq<SilenceInterval>, at: int) -> bool {
        exists|i: int| 0 <= i < found.len() && (#[trigger] found[i]).0 <= at < found[i].1
    }
}

/// What is kept of the first `n` frames is as many whole frames as survive.
pub proof fn lemma_kept_len(m: SilenceModel, n: int)
    requires
        m.wf(),
        0 <= n <= m.frames(),
    ensures
        0 <= m.kept_frames(n) <= n,
        m.kept(n).len() == m.kept_frames(n) * m.channels,
        m.kept(n).len() <= n * m.channels,
    decreases n,
{
    if n > 0 {
        lemma_kept_len(m, n - 1);
        lemma_frame_span(m, n - 1);
        lemma_mul_is_distributive_add_other_way(m.channels, m.kept_frames(n - 1), 1);
    }
    lemma_mul_inequality(m.kept_frames(n), n, m.channels);
}

/// What is kept of fewer frames is a prefix of what is kept of more.
pub proof fn lemma_kept_prefix(m: SilenceModel, a: int, b: int)
    requires
        m.wf(),
        0 <= a <= b <= m.frames(),
    ensures
        m.kept_frames(a) <= m.kept_frames(b),
        m.kept(a).len() <= m.kept(b).len(),
        m.kept(b).subrange(0, m.kept(a).len() as int) == m.kept(a),
    decreases b - a,
{
    if a < b {
        lemma_kept_prefix(m, a, b - 1);
        assert(m.kept(b).subrange(0, m.kept(a).len() as int) =~= m.kept(b - 1).subrange(
            0,
            m.kept(a).len() as int,
        ));
    } else {
        assert(m.kept(b).subrange(0, m.kept(a).len() as int) =~= m.kept(a));
    }
}

/// Removal never lengthens a buffer.
pub proof fn lemma_cut_never_longer(m: SilenceModel)
    requires
        m.wf(),
    ensures
        m.kept(m.frames()).len() <= m.samples.len(),
{
    lemma_frames_tile(m);
    lemma_kept_len(m, m.frames());
}

/// Under a threshold of zero no frame is silent, and removal returns the
/// samples as they are.
pub proof fn lemma_zero_threshold_keeps_all(m: SilenceModel)
    requires
        m.wf(),
        m.threshold.numer == 0,
    ensures
        forall|f: int| !m.silent(f),
        m.kept(m.frames()) == m.samples,
{
    lemma_frames_tile(m);
    assert forall|f: int| !m.silent(f) by {
        if 0 <= f < m.frames() {
            lemma_magnitude_sum_nonnegative(m.frame(f));
            assert(0 <= magnitude_sum(m.frame(f)) * m.threshold.denom)
                by (nonlinear_arith)
                requires
                    0 <= magnitude_sum(m.frame(f)),
                    0 <= m.threshold.denom,
            ;
            assert(0 * FULL_SCALE * m.channels == 0) by (nonlinear_arith);
        }
    }
    assert forall|f: int| 0 <= f < m.frames() implies !m.removed(f) by {
        lemma_loud_frame_kept(m, f);
    }
    lemma_kept_copies(m, 0, m.frames());
    assert(m.kept(0) + m.samples.subrange(0 * m.channels, m.frames() * m.channels) =~= m.samples);
}

/// A sum of magnitudes is never negative.
pub proof fn lemma_magnitude_sum_nonnegative(samples: Seq<i16>)
    ensures
        0 <= magnitude_sum(samples),
    decreases samples.len(),
{
    if samples.len() > 0 {
        lemma_magnitude_sum_nonnegative(samples.drop_last());
    }
}

/// The frames that removal cuts are exactly the frames that lie in an
/// interval of the detection with the same settings.
pub proof fn lemma_removed_is_detected(m: SilenceModel, found: Seq<SilenceInterval>)
    requires
        m.wf(),
        m.is_detection(found),
    ensures
        forall|f: int|
            0 <= f < m.frames() ==> (m.removed(f) <==> #[trigger] SilenceModel::covered(
                found,
                f * m.channels,
            )),
{
    lemma_frames_tile(m);
    assert forall|f: int| 0 <= f < m.frames() implies (m.removed(f) <==> #[trigger]
        SilenceModel::covered(found, f * m.channels)) by {
        if m.removed(f) {
            let (s, e) = choose|s: int, e: int| #[trigger] m.qualifies(s, e) && s <= f < e;
            lemma_run_in_bounds(m, s, e);
            let i = choose|i: int| 0 <= i < found.len() && found[i] == m.interval(s, e);
            lemma_mul_inequality(s, f, m.channels);
            lemma_mul_strict_inequality(f, e, m.channels);
            lemma_mul_inequality(e, m.frames(), m.channels);
            lemma_mul_inequality(0, s, m.channels);
            assert(found[i].0 <= f * m.channels < found[i].1);
        }
        if SilenceModel::covered(found, f * m.channels) {
            let i = choose|i: int|
                0 <= i < found.len() && (#[trigger] found[i]).0 <= f * m.channels < found[i].1;
            assert(m.is_cut(found[i]));
            let s = found[i].0 as int / m.channels;
            let e = found[i].1 as int / m.channels;
            lemma_fundamental_div_mod(found[i].0 as int, m.channels);
            lemma_fundamental_div_mod(found[i].1 as int, m.channels);
            assert(m.channels * s == s * m.channels) by (nonlinear_arith);
            assert(m.channels * e == e * m.channels) by (nonlinear_arith);
            if f < s {
                lemma_mul_inequality(f + 1, s, m.channels);
                lemma_mul_is_distributive_add_other_way(m.channels, f, 1);
            }
            if f >= e {
                lemma_mul_inequality(e, f, m.channels);
            }
            assert(m.qualifies(s, e) && s <= f < e);
        }
    }
}

/// Whether a silence run is cut is decided by its length alone: a run of
/// at least the minimum length goes as a whole, and a shorter one, be it
/// by a single frame, stays sample for sample.
pub proof fn lemma_run_cut_by_length(m: SilenceModel, s: int, e: int)
    requires
        m.wf(),
        m.is_run(s, e),
    ensures
        e - s >= m.min_frames ==> m.kept(e) == m.kept(s),
        e - s >= m.min_frames ==> forall|f: int| s <= f < e ==> m.removed(f),
        e - s < m.min_frames ==> m.kept(e) == m.kept(s) + m.samples.subrange(
            s * m.channels,
            e * m.channels,
        ),
        e - s < m.min_frames ==> forall|f: int| s <= f < e ==> !m.removed(f),
{
    lemma_run_in_bounds(m, s, e);
    if e - s >= m.min_frames {
        lemma_long_run_removed(m, s, e);
        lemma_kept_skips(m, s, e);
    } else {
        lemma_short_run_kept(m, s, e);
        lemma_kept_copies(m, s, e);
    }
}

/// The stretch of silent frames around a silent frame is a silence run.
pub proof fn lemma_run_around(m: SilenceModel, f: int)
    requires
        m.wf(),
        m.silent(f),
    ensures
        m.is_run(m.run_first(f), m.run_limit(f)),
        m.run_first(f) <= f < m.run_limit(f),
{
    lemma_run_reaches_back(m, f);
    lemma_run_reaches_on(m, f);
}

/// Back from a silent frame to `run_first`, every frame is silent, and the
/// frame before that is not.
proof fn lemma_run_reaches_back(m: SilenceModel, f: int)
    requires
        m.silent(f),
    ensures
        m.run_first(f) <= f,
        forall|x: int| m.run_first(f) <= x <= f ==> m.silent(x),
        !m.silent(m.run_first(f) - 1),
    decreases f,
{
    if f > 0 && m.silent(f - 1) {
        lemma_run_reaches_back(m, f - 1);
    }
}

/// From a silent frame on to `run_limit`, every frame is silent, and the
/// frame at `run_limit` is not.
proof fn lemma_run_reaches_on(m: SilenceModel, f: int)
    requires
        m.silent(f),
    ensures
        f < m.run_limit(f),
        forall|x: int| f <= x < m.run_limit(f) ==> m.silent(x),
        !m.silent(m.run_limit(f)),
    decreases m.frames() - f,
{
    if m.silent(f + 1) {
        lemma_run_reaches_on(m, f + 1);
    } else {
        assert(m.run_limit(f + 1) == f + 1);
    }
}

/// Frames of which none is removed all count.
proof fn lemma_kept_frames_count(m: SilenceModel, a: int, b: int)
    requires
        0 <= a <= b,
        forall|f: int| a <= f < b ==> !m.removed(f),
    ensures
        m.kept_frames(b) == m.kept_frames(a) + (b - a),
    decreases b - a,
{
    if a < b {
        lemma_kept_frames_count(m, a, b - 1);
    }
}

/// A frame that survives the cut is found again, unchanged, at the place
/// that the frames kept before it leave to it.
proof fn lemma_kept_frame_place(m: SilenceModel, f: int)
    requires
        m.wf(),
        0 <= f < m.frames(),
        !m.removed(f),
    ensures
        m.after_cut().wf(),
        m.after_cut().frames() == m.kept_frames(m.frames()),
        0 <= m.kept_frames(f) < m.after_cut().frames(),
        m.after_cut().frame(m.kept_frames(f)) == m.frame(f),
        m.after_cut().silent(m.kept_frames(f)) == m.silent(f),
{
    let out = m.after_cut();
    let c = m.channels;
    let r = m.kept_frames(f);
    lemma_after_cut_wf(m);
    lemma_kept_len(m, f);
    lemma_kept_len(m, f + 1);
    lemma_kept_len(m, m.frames());
    lemma_kept_prefix(m, f + 1, m.frames());
    lemma_frame_span(m, f);
    lemma_mul_is_distributive_add_other_way(c, r, 1);
    assert(m.kept(f + 1) == m.kept(f) + m.frame(f));
    assert(out.frame(r) =~= m.frame(f)) by {
        assert(out.samples.subrange(0, m.kept(f + 1).len() as int) == m.kept(f + 1));
        assert forall|k: int| 0 <= k < c implies out.frame(r)[k] == m.frame(f)[k] by {
            assert(out.samples[r * c + k] == out.samples.subrange(
                0,
                m.kept(f + 1).len() as int,
            )[r * c + k]);
        }
    }
}

/// What is left after the cut is again a well-formed model.
pub proof fn lemma_after_cut_wf(m: SilenceModel)
    requires
        m.wf(),
    ensures
        m.after_cut().wf(),
        m.after_cut().frames() == m.kept_frames(m.frames()),
{
    lemma_frames_tile(m);
    lemma_kept_len(m, m.frames());
    lemma_interval_frames(m, m.kept_frames(m.frames()));
}

/// Every frame that is left after the cut comes from a frame that survived.
proof fn lemma_kept_frame_origin(m: SilenceModel, n: int, j: int) -> (f: int)
    requires
        m.wf(),
        0 <= n <= m.frames(),
        0 <= j < m.kept_frames(n),
    ensures
        0 <= f < n,
        !m.removed(f),
        m.kept_frames(f) == j,
    decreases n,
{
    if !m.removed(n - 1) && m.kept_frames(n - 1) == j {
        n - 1
    } else {
        lemma_kept_len(m, n - 1);
        lemma_kept_frame_origin(m, n - 1, j)
    }
}

/// After the cut no silence is left that would be cut.
pub proof fn lemma_nothing_left_to_cut(m: SilenceModel)
    requires
        m.wf(),
    ensures
        m.after_cut().wf(),
        forall|j: int| !m.after_cut().removed(j),
{
    let out = m.after_cut();
    lemma_after_cut_wf(m);
    lemma_frames_tile(m);
    assert forall|j: int| !out.removed(j) by {
        if out.removed(j) {
            let (s2, e2) = choose|s2: int, e2: int| #[trigger] out.qualifies(s2, e2) && s2 <= j < e2;
            lemma_run_in_bounds(out, s2, e2);
            assert(out.silent(j));
            let f = lemma_kept_frame_origin(m, m.frames(), j);
            lemma_kept_frame_place(m, f);
            lemma_run_around(m, f);
            let b = m.run_first(f);
            let e = m.run_limit(f);
            lemma_run_in_bounds(m, b, e);
            if e - b >= m.min_frames {
                assert(m.qualifies(b, e));
                assert(m.removed(f));
            }
            lemma_short_run_kept(m, b, e);
            lemma_kept_frames_count(m, b, f);
            lemma_kept_frames_count(m, b, e);
            let jb = m.kept_frames(b);
            let je = m.kept_frames(e);
            lemma_kept_len(m, b);
            lemma_kept_len(m, e);
            lemma_kept_prefix(m, e, m.frames());
            // the frame before the run is not silent, here and after the cut
            if jb > 0 {
                assert(b > 0);
                lemma_loud_frame_kept(m, b - 1);
                lemma_kept_frame_place(m, b - 1);
                assert(!out.silent(jb - 1));
            }
            // nor is the frame behind it
            if e < m.frames() {
                lemma_loud_frame_kept(m, e);
                lemma_kept_frame_place(m, e);
                assert(!out.silent(je));
            }
            assert(!out.silent(jb - 1));
            assert(!out.silent(je));
            if s2 < jb {
                assert(out.silent(jb - 1));
            }
            if e2 > je {
                assert(out.silent(je));
            }
            assert(false);
        }
    }
}

/// Removal is idempotent: what is left after the cut is left as it is by
/// a second cut with the same settings.
pub proof fn lemma_cut_idempotent(m: SilenceModel)
    requires
        m.wf(),
    ensures
        m.after_cut().wf(),
        m.after_cut().kept(m.after_cut().frames()) == m.after_cut().samples,
        m.after_cut().after_cut() == m.after_cut(),
{
    let out = m.after_cut();
    lemma_nothing_left_to_cut(m);
    lemma_frames_tile(out);
    lemma_kept_copies(out, 0, out.frames());
    assert(out.kept(0) + out.samples.subrange(0 * out.channels, out.frames() * out.channels)
        =~= out.samples);
}

/// After the cut, detection with the same settings finds nothing.
pub proof fn lemma_cut_leaves_no_silence(m: SilenceModel, found: Seq<SilenceInterval>)
    requires
        m.wf(),
        m.after_cut().is_detection(found),
    ensures
        found.len() == 0,
{
    lemma_nothing_left_to_cut(m);
    if found.len() > 0 {
        let out = m.after_cut();
        lemma_detected_interval(out, found, 0);
        assert(out.removed(found[0].0 as int / out.channels));
    }
}

/// Two lists of intervals that are not empty, lie one strictly behind the
/// other, and hold the same intervals are the same list.
proof fn lemma_ordered_lists_agree(a: Seq<SilenceInterval>, b: Seq<SilenceInterval>)
    requires
        forall|i: int| 0 <= i < a.len() ==> (#[trigger] a[i]).0 < a[i].1,
        forall|i: int| 0 <= i < b.len() ==> (#[trigger] b[i]).0 < b[i].1,
        forall|i: int, j: int| 0 <= i < j < a.len() ==> a[i].1 < a[j].0,
        forall|i: int, j: int| 0 <= i < j < b.len() ==> b[i].1 < b[j].0,
        forall|i: int| 0 <= i < a.len() ==> b.contains(#[trigger] a[i]),
        forall|j: int| 0 <= j < b.len() ==> a.contains(#[trigger] b[j]),
    ensures
        a == b,
    decreases a.len(),
{
    if a.len() == 0 {
        if b.len() > 0 {
            assert(a.contains(b[0]));
        }
        assert(a =~= b);
    } else {
        let x = a.last();
        assert(b.contains(a[a.len() - 1]));
        let j = choose|j: int| 0 <= j < b.len() && b[j] == x;
        let y = b.last();
        assert(a.contains(b[b.len() - 1]));
        let i = choose|i: int| 0 <= i < a.len() && a[i] == y;
        assert(x == y) by {
            if i < a.len() - 1 {
                assert(a[i].1 < a[a.len() - 1].0);
                if j < b.len() - 1 {
                    assert(b[j].1 < b[b.len() - 1].0);
                }
            }
        }
        let shorter_a = a.drop_last();
        let shorter_b = b.drop_last();
        assert forall|k: int| 0 <= k < shorter_a.len() implies shorter_b.contains(
            #[trigger] shorter_a[k],
        ) by {
            assert(b.contains(a[k]));
            let l = choose|l: int| 0 <= l < b.len() && b[l] == a[k];
            assert(a[k].1 < a[a.len() - 1].0);
            assert(shorter_b[l] == shorter_a[k]);
        }
        assert forall|l: int| 0 <= l < shorter_b.len() implies shorter_a.contains(
            #[trigger] shorter_b[l],
        ) by {
            assert(a.contains(b[l]));
            let k = choose|k: int| 0 <= k < a.len() && a[k] == b[l];
            assert(b[l].1 < b[b.len() - 1].0);
            assert(shorter_a[k] == shorter_b[l]);
        }
        lemma_ordered_lists_agree(shorter_a, shorter_b);
        assert(a =~= shorter_a.push(x));
        assert(b =~= shorter_b.push(y));
    }
}

/// Every interval of a detection is the interval of a run that is cut,
/// and is not empty.
proof fn lemma_detected_interval(m: SilenceModel, found: Seq<SilenceInterval>, i: int)
    requires
        m.wf(),
        m.is_detection(found),
        0 <= i < found.len(),
    ensures
        found[i].0 < found[i].1,
        m.qualifies(found[i].0 as int / m.channels, found[i].1 as int / m.channels),
        found[i] == m.interval(found[i].0 as int / m.channels, found[i].1 as int / m.channels),
{
    let c = m.channels;
    let s = found[i].0 as int / c;
    let e = found[i].1 as int / c;
    assert(m.is_cut(found[i]));
    lemma_fundamental_div_mod(found[i].0 as int, c);
    lemma_fundamental_div_mod(found[i].1 as int, c);
    assert(c * s == s * c) by (nonlinear_arith);
    assert(c * e == e * c) by (nonlinear_arith);
    lemma_run_in_bounds(m, s, e);
    lemma_mul_strict_inequality(s, e, c);
}

/// The silence of a buffer is one list and no other: two detections under
/// the same settings are equal.
pub proof fn lemma_detection_unique(
    m: SilenceModel,
    first: Seq<SilenceInterval>,
    second: Seq<SilenceInterval>,
)
    requires
        m.wf(),
        m.is_detection(first),
        m.is_detection(second),
    ensures
        first == second,
{
    assert forall|i: int| 0 <= i < first.len() implies (#[trigger] first[i]).0 < first[i].1
        && second.contains(first[i]) by {
        lemma_detected_interval(m, first, i);
    }
    assert forall|j: int| 0 <= j < second.len() implies (#[trigger] second[j]).0 < second[j].1
        && first.contains(second[j]) by {
        lemma_detected_interval(m, second, j);
    }
    lemma_ordered_lists_agree(first, second);
}

} // verus!
