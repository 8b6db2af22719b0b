use vstd::prelude::*;

use crate::error::ConvertError;
use crate::gain::{combined_peak, derive_gain, Gain};
use crate::merge::{copy_stream, merge_streams, merged_spec, scaled_stream};
use crate::pairing::Recording;
use crate::scan::{lemma_peak_in_range, peak_spec};

verus! {

/// The gain a merged pair is written with: when normalization is requested
/// and the pair is not silent, normalization by the larger of the two
/// streams' peaks — so the louder stream reaches exactly full scale and
/// neither clips — and unity otherwise.
pub open spec fn pair_gain(normalize: bool, ms: Seq<i32>, xy: Seq<i32>) -> Gain {
    let p = if peak_spec(xy) >= peak_spec(ms) {
        peak_spec(xy)
    } else {
        peak_spec(ms)
    };
    if normalize && p > 0 {
        Gain::Normalize { peak: p as u32 }
    } else {
        Gain::Unity
    }
}

/// The gain a single stream is copied through with: normalization by its own
/// peak when requested and the stream is not silent, unity otherwise.
pub open spec fn single_gain(normalize: bool, s: Seq<i32>) -> Gain {
    if normalize && peak_spec(s) > 0 {
        Gain::Normalize { peak: peak_spec(s) as u32 }
    } else {
        Gain::Unity
    }
}

/// The merge engine on two in-memory stereo streams: validate the pair's
/// sample rates and lengths, derive the pair's gain, and merge chunk by
/// chunk into the four-channel stream. Fails with `SampleRateMismatch`
/// exactly when the reported rates differ (checked first, before any other
/// work), and with `LengthMismatch` exactly when the streams' lengths
/// differ; no output exists in either case.
pub fn merge_recording(
    ms: &Vec<i32>,
    xy: &Vec<i32>,
    samplerate_ms: usize,
    samplerate_xy: usize,
    normalize: bool,
) -> (r: Result<Vec<i32>, ConvertError>)
    requires
        ms@.len() % 2 == 0,
        xy@.len() % 2 == 0,
    ensures
        samplerate_ms != samplerate_xy ==> r == Err::<Vec<i32>, ConvertError>(
            ConvertError::SampleRateMismatch,
        ),
        samplerate_ms == samplerate_xy && ms@.len() != xy@.len() ==> r == Err::<
            Vec<i32>,
            ConvertError,
        >(ConvertError::LengthMismatch),
        samplerate_ms == samplerate_xy && ms@.len() == xy@.len() ==> {
            &&& r is Ok
            &&& r->Ok_0@ == merged_spec(ms@, xy@, pair_gain(normalize, ms@, xy@))
            &&& r->Ok_0@.len() == 2 * ms@.len()
        },
{
    if samplerate_ms != samplerate_xy {
        return Err(ConvertError::SampleRateMismatch);
    }
    if ms.len() != xy.len() {
        return Err(ConvertError::LengthMismatch);
    }
    let g = if normalize {
        let peak_xy = Recording::maxval(xy);
        let peak_ms = Recording::maxval(ms);
        proof {
            lemma_peak_in_range(xy@);
            lemma_peak_in_range(ms@);
        }
        derive_gain(true, combined_peak(peak_xy, peak_ms))
    } else {
        Gain::Unity
    };
    assert(g == pair_gain(normalize, ms@, xy@));
    Ok(merge_streams(ms, xy, &g))
}

/// The passthrough engine on one in-memory stream: derive the stream's own
/// gain and copy the stream through it chunk by chunk, keeping its length.
pub fn passthrough_recording(samples: &Vec<i32>, normalize: bool) -> (r: Vec<i32>)
    ensures
        r@ == scaled_stream(samples@, single_gain(normalize, samples@)),
        r@.len() == samples@.len(),
{
    let g = if normalize {
        let peak = Recording::maxval(samples);
        proof {
            lemma_peak_in_range(samples@);
        }
        derive_gain(true, peak)
    } else {
        Gain::Unity
    };
    assert(g == single_gain(normalize, samples@));
    copy_stream(samples, &g)
}

} // verus!
