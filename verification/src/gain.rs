use vstd::prelude::*;

verus! {

/// The magnitude a sample lands on when normalization maps the stream's peak
/// to full scale.
pub const FULL_SCALE: u32 = 0x7fff_ffff;

/// The largest magnitude a 32-bit sample can carry at all (the magnitude of
/// the most negative sample).
pub const MAX_MAGNITUDE: u32 = 0x8000_0000;

/// The magnitude (absolute value) of a sample.
pub open spec fn mag(s: i32) -> int {
    if s >= 0 {
        s as int
    } else {
        -(s as int)
    }
}

/// The amplitude scaling applied to every sample of an output stream. It is
/// chosen once per stream or pair of streams and never varies within one.
#[derive(Clone, Copy, Debug, PartialEq, Eq, Structural)]
pub enum Gain {
    /// Samples pass through unchanged.
    Unity,
    /// Samples are scaled so that a sample of magnitude `peak` lands exactly
    /// on full scale.
    Normalize { peak: u32 },
}

impl Gain {
    /// A gain is well formed when its peak is a magnitude some sample can
    /// actually have, and is not zero (a silent stream takes `Unity`).
    pub open spec fn wf(self) -> bool {
        match self {
            Gain::Unity => true,
            Gain::Normalize { peak } => 0 < peak <= MAX_MAGNITUDE,
        }
    }
}

/// What scaling does to one sample: identity under `Unity`; under
/// `Normalize`, the magnitude is mapped to `mag * FULL_SCALE / peak`,
/// truncated toward zero and saturated at full scale, with the sign kept.
/// Saturation only matters for samples louder than the peak; a peak measured
/// over the stream itself never triggers it.
pub open spec fn scaled(g: Gain, s: i32) -> int {
    match g {
        Gain::Unity => s as int,
        Gain::Normalize { peak } => {
            let m = (mag(s) * FULL_SCALE) / (peak as int);
            let capped = if m > FULL_SCALE { FULL_SCALE as int } else { m };
            if s >= 0 {
                capped
            } else {
                -capped
            }
        },
    }
}

/// The scaled sample as a 32-bit value; `scaled` always fits.
pub open spec fn scaled_sample(g: Gain, s: i32) -> i32 {
    scaled(g, s) as i32
}

/// Scaling stays within the 32-bit sample range: under `Unity` the sample is
/// unchanged, and under any well-formed `Normalize` gain the result's
/// magnitude never exceeds full scale.
pub proof fn lemma_scaled_in_range(g: Gain, s: i32)
    requires
        g.wf(),
    ensures
        g is Unity ==> scaled(g, s) == s as int,
        g is Normalize ==> -(FULL_SCALE as int) <= scaled(g, s) <= FULL_SCALE as int,
        scaled_sample(g, s) as int == scaled(g, s),
{
    match g {
        Gain::Unity => {},
        Gain::Normalize { peak } => {
            assert(mag(s) >= 0);
            assert((mag(s) * FULL_SCALE) >= 0) by (nonlinear_arith)
                requires mag(s) >= 0;
            assert((mag(s) * FULL_SCALE) / (peak as int) >= 0) by (nonlinear_arith)
                requires (mag(s) * FULL_SCALE) >= 0, peak > 0;
        },
    }
}

/// A sample no louder than the peak scales exactly, without saturation: its
/// new magnitude is `mag * FULL_SCALE / peak`.
pub proof fn lemma_scaled_exact(peak: u32, s: i32)
    requires
        0 < peak <= MAX_MAGNITUDE,
        mag(s) <= peak,
    ensures
        mag(scaled_sample(Gain::Normalize { peak }, s)) == (mag(s) * FULL_SCALE) / (peak as int),
        (mag(s) * FULL_SCALE) / (peak as int) <= FULL_SCALE,
{
    let g = Gain::Normalize { peak };
    assert((mag(s) * FULL_SCALE) / (peak as int) <= FULL_SCALE) by (nonlinear_arith)
        requires 0 <= mag(s) <= peak, 0 < peak;
    assert((mag(s) * FULL_SCALE) >= 0) by (nonlinear_arith)
        requires mag(s) >= 0;
    assert((mag(s) * FULL_SCALE) / (peak as int) >= 0) by (nonlinear_arith)
        requires (mag(s) * FULL_SCALE) >= 0, peak > 0;
    lemma_scaled_in_range(g, s);
}

/// A sample exactly at the peak lands exactly on full scale.
pub proof fn lemma_peak_sample_reaches_full_scale(peak: u32, s: i32)
    requires
        0 < peak,
        mag(s) == peak,
    ensures
        mag(scaled_sample(Gain::Normalize { peak }, s)) == FULL_SCALE,
{
    lemma_scaled_exact(peak, s);
    assert((peak * FULL_SCALE) / (peak as int) == FULL_SCALE) by (nonlinear_arith)
        requires peak > 0;
}

/// Scale one sample by a gain. The result is exactly `scaled`.
pub fn apply_gain(g: &Gain, s: i32) -> (r: i32)
    requires
        g.wf(),
    ensures
        r == scaled_sample(*g, s),
        r as int == scaled(*g, s),
{
    proof {
        lemma_scaled_in_range(*g, s);
    }
    match g {
        Gain::Unity => s,
        Gain::Normalize { peak } => {
            let m: u64 = if s >= 0 {
                s as u64
            } else {
                (-(s as i64)) as u64
            };
            assert(m == mag(s));
            assert(m * (FULL_SCALE as u64) <= 0x8000_0000u64 * 0x7fff_ffffu64) by (nonlinear_arith)
                requires m <= 0x8000_0000u64;
            let scaled_m: u64 = m * (FULL_SCALE as u64) / (*peak as u64);
            let capped: u64 = if scaled_m > FULL_SCALE as u64 {
                FULL_SCALE as u64
            } else {
                scaled_m
            };
            if s >= 0 {
                capped as i32
            } else {
                (-(capped as i64)) as i32
            }
        },
    }
}

/// The gain a single stream gets: unity when normalization is off or the
/// stream is silent, else normalization by the stream's own peak.
pub fn derive_gain(normalize: bool, peak: u32) -> (r: Gain)
    requires
        peak <= MAX_MAGNITUDE,
    ensures
        r.wf(),
        normalize && peak > 0 ==> r == (Gain::Normalize { peak }),
        !(normalize && peak > 0) ==> r == Gain::Unity,
{
    if normalize && peak > 0 {
        Gain::Normalize { peak }
    } else {
        Gain::Unity
    }
}

/// The peak a merged pair is normalized against: the larger of the two
/// streams' peaks, so that the louder stream reaches exactly full scale and
/// neither stream clips.
pub fn combined_peak(peak_xy: u32, peak_ms: u32) -> (r: u32)
    ensures
        r == if peak_xy >= peak_ms { peak_xy } else { peak_ms },
        r >= peak_xy,
        r >= peak_ms,
{
    if peak_xy >= peak_ms {
        peak_xy
    } else {
        peak_ms
    }
}

} // verus!
