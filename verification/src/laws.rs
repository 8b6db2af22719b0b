use vstd::prelude::*;

use vstd::arithmetic::div_mod::lemma_fundamental_div_mod;

use crate::gain::{
    lemma_peak_sample_reaches_full_scale, lemma_scaled_exact, mag, Gain, FULL_SCALE, MAX_MAGNITUDE,
};
use crate::merge::{merged_spec, scaled_stream};
use crate::scan::{
    lemma_peak_in_range, lemma_peak_is_bound, lemma_peak_is_reached, lemma_peak_le_bound,
    peak_spec,
};

verus! {

/// Merging a valid pair is shape-preserving: the output carries four
/// channels, and its frame count (its length divided by four) equals the
/// shared frame count of the two stereo inputs (their length divided by
/// two).
pub proof fn lemma_merge_shape(ms: Seq<i32>, xy: Seq<i32>, g: Gain)
    requires
        ms.len() == xy.len(),
        ms.len() % 2 == 0,
    ensures
        merged_spec(ms, xy, g).len() == 2 * ms.len(),
        merged_spec(ms, xy, g).len() % 4 == 0,
        merged_spec(ms, xy, g).len() / 4 == ms.len() / 2,
{
    lemma_fundamental_div_mod(ms.len() as int, 2);
    assert(merged_spec(ms, xy, g).len() == (ms.len() / 2) * 4);
    lemma_fundamental_div_mod(((ms.len() / 2) * 4) as int, 4);
    assert(((ms.len() / 2) * 4) % 4 == 0 && ((ms.len() / 2) * 4) / 4 == ms.len() / 2)
        by (nonlinear_arith);
}

/// Copying a single stream through is shape-preserving: the output keeps the
/// input's channel count and frame count, sample for sample.
pub proof fn lemma_passthrough_shape(s: Seq<i32>, g: Gain)
    ensures
        scaled_stream(s, g).len() == s.len(),
{
}

/// With normalization disabled, the passthrough output is the input,
/// unchanged sample for sample.
pub proof fn lemma_unity_passthrough_is_identity(s: Seq<i32>)
    ensures
        scaled_stream(s, Gain::Unity) == s,
{
    assert(scaled_stream(s, Gain::Unity) =~= s);
}

/// A sample of a merged frame under unity gain: the output frame holds the
/// two MS samples and then the two XY samples of the same input frame,
/// unchanged.
pub open spec fn unity_frame_copied(r: Seq<i32>, ms: Seq<i32>, xy: Seq<i32>, k: int) -> bool {
    &&& r[4 * k] == ms[2 * k]
    &&& r[4 * k + 1] == ms[2 * k + 1]
    &&& r[4 * k + 2] == xy[2 * k]
    &&& r[4 * k + 3] == xy[2 * k + 1]
}

/// With normalization disabled, merging changes no sample: every output
/// frame holds the corresponding input samples unchanged, in the nominal
/// layout {MS left, MS right, XY left, XY right}.
pub proof fn lemma_unity_merge_is_identity(ms: Seq<i32>, xy: Seq<i32>)
    requires
        ms.len() == xy.len(),
        ms.len() % 2 == 0,
    ensures
        forall|k: int|
            0 <= k < ms.len() / 2 ==> #[trigger] unity_frame_copied(
                merged_spec(ms, xy, Gain::Unity),
                ms,
                xy,
                k,
            ),
{
    let r = merged_spec(ms, xy, Gain::Unity);
    assert forall|k: int| 0 <= k < ms.len() / 2 implies #[trigger] unity_frame_copied(
        r,
        ms,
        xy,
        k,
    ) by {
        assert(0 <= 4 * k < r.len() && 4 * k + 3 < r.len()) by (nonlinear_arith)
            requires
                0 <= k < ms.len() / 2,
                r.len() == (ms.len() / 2) * 4,
        ;
        lemma_div_mod_4k(k, 0);
        lemma_div_mod_4k(k, 1);
        lemma_div_mod_4k(k, 2);
        lemma_div_mod_4k(k, 3);
    }
}

/// Division and remainder of `4 * k + c` by four, for the interleave index
/// arithmetic.
proof fn lemma_div_mod_4k(k: int, c: int)
    requires
        0 <= c < 4,
        0 <= k,
    ensures
        (4 * k + c) / 4 == k,
        (4 * k + c) % 4 == c,
{
    vstd::arithmetic::div_mod::lemma_fundamental_div_mod_converse_div(4 * k + c, 4, k, c);
    vstd::arithmetic::div_mod::lemma_fundamental_div_mod_converse_mod(4 * k + c, 4, k, c);
}

/// With normalization enabled on a single stream, against the stream's own
/// non-zero peak: no output sample's magnitude exceeds full scale, some
/// output sample's magnitude reaches exactly full scale, and so the output
/// stream's peak is exactly full scale.
pub proof fn lemma_normalized_passthrough_peak(s: Seq<i32>, p: u32)
    requires
        p == peak_spec(s),
        p > 0,
    ensures
        forall|j: int|
            0 <= j < s.len() ==> mag(#[trigger] scaled_stream(
                s,
                Gain::Normalize { peak: p },
            )[j]) <= FULL_SCALE,
        peak_spec(scaled_stream(s, Gain::Normalize { peak: p })) == FULL_SCALE,
{
    let g = Gain::Normalize { peak: p };
    let t = scaled_stream(s, g);
    lemma_peak_in_range(s);
    assert forall|j: int| 0 <= j < s.len() implies mag(#[trigger] t[j]) <= FULL_SCALE by {
        lemma_peak_is_bound(s, j);
        lemma_scaled_exact(p, s[j]);
    }
    lemma_peak_is_reached(s);
    let i = choose|i: int| 0 <= i < s.len() && #[trigger] mag(s[i]) == peak_spec(s);
    lemma_peak_sample_reaches_full_scale(p, s[i]);
    assert(mag(t[i]) == FULL_SCALE);
    assert(forall|j: int| 0 <= j < t.len() ==> #[trigger] mag(t[j]) <= FULL_SCALE);
    lemma_peak_le_bound(t, FULL_SCALE as int);
    lemma_peak_is_bound(t, i);
}

/// Merging under a normalization gain whose peak is at least either stream's
/// own peak never clips: no output sample's magnitude exceeds full scale.
/// With the combined peak chosen as the larger of the two streams' peaks,
/// this is the intended no-clip merge normalization.
pub proof fn lemma_normalized_merge_no_clip(ms: Seq<i32>, xy: Seq<i32>, p: u32)
    requires
        ms.len() == xy.len(),
        ms.len() % 2 == 0,
        p > 0,
        peak_spec(ms) <= p,
        peak_spec(xy) <= p,
        p <= MAX_MAGNITUDE,
    ensures
        forall|j: int|
            0 <= j < merged_spec(ms, xy, Gain::Normalize { peak: p }).len() ==> mag(
                #[trigger] merged_spec(ms, xy, Gain::Normalize { peak: p })[j],
            ) <= FULL_SCALE,
{
    let g = Gain::Normalize { peak: p };
    let r = merged_spec(ms, xy, g);
    assert forall|j: int| 0 <= j < r.len() implies mag(#[trigger] r[j]) <= FULL_SCALE by {
        lemma_fundamental_div_mod(j, 4);
        vstd::arithmetic::div_mod::lemma_mod_division_less_than_divisor(j, 4);
        let k = j / 4;
        let c = j % 4;
        assert(0 <= k && 2 * k + 1 < ms.len()) by (nonlinear_arith)
            requires
                j == 4 * k + c,
                0 <= c < 4,
                0 <= j < r.len(),
                r.len() == (ms.len() / 2) * 4,
                ms.len() % 2 == 0,
        ;
        if c < 2 {
            lemma_peak_is_bound(ms, 2 * k + c);
            lemma_scaled_exact(p, ms[2 * k + c]);
        } else {
            lemma_peak_is_bound(xy, 2 * k + (c - 2));
            lemma_scaled_exact(p, xy[2 * k + (c - 2)]);
        }
    }
}

} // verus!
