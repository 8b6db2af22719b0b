use vstd::prelude::*;

use crate::error::ConvertError;
use crate::merge::CHUNK_FRAMES;

verus! {

/// The output container and codec, selected once per run and applied to
/// every recording processed in that run. The codec layer maps each variant
/// to its container and encoding; this crate only routes it through and
/// picks the output name's extension by it.
#[derive(Clone, Copy, Debug, PartialEq, Eq, Structural)]
pub enum OutputFormat {
    /// Vorbis in an OGG container.
    Ogg,
    /// 24-bit PCM in a FLAC container.
    Flac,
}

/// Which engine a recording unit is handed to.
#[derive(Clone, Copy, Debug, PartialEq, Eq, Structural)]
pub enum Route {
    /// Both pair members exist: merge them into the four-channel stream.
    MergePair,
    /// Only the XY member exists: copy it through.
    PassthroughXy,
    /// Only the MS member exists: copy it through.
    PassthroughMs,
}

/// The dispatcher's routing rule over a recording's existence flags. A
/// recording with neither member is never constructed, so no fourth case
/// exists.
pub fn choose_route(xy_exists: bool, ms_exists: bool) -> (r: Route)
    requires
        xy_exists || ms_exists,
    ensures
        xy_exists && ms_exists ==> r == Route::MergePair,
        xy_exists && !ms_exists ==> r == Route::PassthroughXy,
        ms_exists && !xy_exists ==> r == Route::PassthroughMs,
{
    if xy_exists && ms_exists {
        Route::MergePair
    } else if xy_exists {
        Route::PassthroughXy
    } else {
        Route::PassthroughMs
    }
}

/// A source stream must report exactly two channels.
pub fn check_channels(channels: usize) -> (r: Result<(), ConvertError>)
    ensures
        channels == 2 <==> r is Ok,
        channels != 2 ==> r == Err::<(), ConvertError>(ConvertError::UnexpectedChannelCount),
{
    if channels == 2 {
        Ok(())
    } else {
        Err(ConvertError::UnexpectedChannelCount)
    }
}

/// The metadata check a pair must pass before merging begins: equal sample
/// rates first, then equal frame counts. It fails exactly on a mismatch, and
/// a sample-rate mismatch is reported ahead of a length mismatch.
pub fn validate_pair_meta(
    samplerate_ms: usize,
    samplerate_xy: usize,
    frames_ms: u64,
    frames_xy: u64,
) -> (r: Result<(), ConvertError>)
    ensures
        samplerate_ms != samplerate_xy ==> r == Err::<(), ConvertError>(
            ConvertError::SampleRateMismatch,
        ),
        samplerate_ms == samplerate_xy && frames_ms != frames_xy ==> r == Err::<(), ConvertError>(
            ConvertError::LengthMismatch,
        ),
        samplerate_ms == samplerate_xy && frames_ms == frames_xy <==> r is Ok,
{
    if samplerate_ms != samplerate_xy {
        Err(ConvertError::SampleRateMismatch)
    } else if frames_ms != frames_xy {
        Err(ConvertError::LengthMismatch)
    } else {
        Ok(())
    }
}

/// The per-chunk synchrony check: after the metadata check has passed, the
/// two streams must still yield chunks of the same frame count, since
/// metadata can lie about the readable content. It fails exactly on a
/// mismatch.
pub fn check_chunk_sync(frames_ms: usize, frames_xy: usize) -> (r: Result<(), ConvertError>)
    ensures
        frames_ms == frames_xy <==> r is Ok,
        frames_ms != frames_xy ==> r == Err::<(), ConvertError>(ConvertError::LengthMismatch),
{
    if frames_ms == frames_xy {
        Ok(())
    } else {
        Err(ConvertError::LengthMismatch)
    }
}

/// The end-of-stream rule: a chunk is the stream's last exactly when it came
/// back short of the fixed chunk capacity. No other signal is consulted.
pub fn chunk_was_final(frames_read: usize) -> (r: bool)
    ensures
        r <==> frames_read < CHUNK_FRAMES,
{
    frames_read < CHUNK_FRAMES
}

} // verus!
