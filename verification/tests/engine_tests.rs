use h2n2flac::engine::{merge_recording, passthrough_recording};
use h2n2flac::error::ConvertError;
use h2n2flac::gain::Gain;
use h2n2flac::merge::{merge_chunk, merge_streams, scale_chunk, CHUNK_FRAMES};
use h2n2flac::route::{check_channels, check_chunk_sync, chunk_was_final, choose_route, Route};
use h2n2flac::route::validate_pair_meta;

#[test]
fn merge_interleaves_in_nominal_layout() {
    // One frame from each member, normalization off.
    let ms = vec![200, 200];
    let xy = vec![400, -400];
    let out = merge_recording(&ms, &xy, 48000, 48000, false).unwrap();
    assert_eq!(out, vec![200, 200, 400, -400]);
}

#[test]
fn merge_keeps_frame_count_over_many_frames() {
    let ms = vec![1i32; 10 * 2];
    let xy = vec![2i32; 10 * 2];
    let out = merge_recording(&ms, &xy, 44100, 44100, false).unwrap();
    assert_eq!(out.len(), 10 * 4);
    assert_eq!(&out[0..4], &[1, 1, 2, 2]);
    assert_eq!(&out[36..40], &[1, 1, 2, 2]);
}

#[test]
fn merge_rejects_differing_sample_rates() {
    let ms = vec![200, 200];
    let xy = vec![400, -400];
    let r = merge_recording(&ms, &xy, 44100, 48000, false);
    assert_eq!(r.err(), Some(ConvertError::SampleRateMismatch));
}

#[test]
fn merge_rejects_differing_lengths() {
    let ms = vec![200, 200, 1, 1];
    let xy = vec![400, -400];
    let r = merge_recording(&ms, &xy, 48000, 48000, false);
    assert_eq!(r.err(), Some(ConvertError::LengthMismatch));
}

#[test]
fn merge_normalizes_against_the_louder_member() {
    let ms = vec![100, 0];
    let xy = vec![200, 0];
    let out = merge_recording(&ms, &xy, 48000, 48000, true).unwrap();
    assert_eq!(out, vec![1073741823, 0, 2147483647, 0]);
}

#[test]
fn passthrough_keeps_samples_without_normalization() {
    // Two frames, values kept exactly.
    let samples = vec![500, -500, 250, 0];
    let out = passthrough_recording(&samples, false);
    assert_eq!(out, samples);
}

#[test]
fn passthrough_normalizes_to_full_scale() {
    // Peak 20000; every sample lands on sample * FULL_SCALE / 20000.
    let samples = vec![10000, -20000, 5000, 0];
    let out = passthrough_recording(&samples, true);
    assert_eq!(out, vec![1073741823, -2147483647, 536870911, 0]);
}

#[test]
fn passthrough_of_a_silent_stream_stays_silent() {
    let samples = vec![0, 0];
    let out = passthrough_recording(&samples, true);
    assert_eq!(out, samples);
}

#[test]
fn copying_one_exact_chunk_terminates_with_the_full_count() {
    let samples = vec![3i32; CHUNK_FRAMES * 2];
    let out = passthrough_recording(&samples, false);
    assert_eq!(out.len(), CHUNK_FRAMES * 2);
    assert_eq!(out, samples);
}

#[test]
fn copying_one_chunk_plus_one_frame_terminates_with_the_full_count() {
    let samples = vec![3i32; (CHUNK_FRAMES + 1) * 2];
    let out = passthrough_recording(&samples, false);
    assert_eq!(out.len(), (CHUNK_FRAMES + 1) * 2);
    assert_eq!(out, samples);
}

#[test]
fn merging_one_exact_chunk_terminates_with_the_full_count() {
    let ms = vec![5i32; CHUNK_FRAMES * 2];
    let xy = vec![6i32; CHUNK_FRAMES * 2];
    let out = merge_recording(&ms, &xy, 48000, 48000, false).unwrap();
    assert_eq!(out.len(), CHUNK_FRAMES * 4);
    assert_eq!(&out[0..4], &[5, 5, 6, 6]);
    assert_eq!(&out[out.len() - 4..], &[5, 5, 6, 6]);
}

#[test]
fn merging_one_chunk_plus_one_frame_terminates_with_the_full_count() {
    let mut ms = vec![5i32; CHUNK_FRAMES * 2];
    ms.push(7);
    ms.push(8);
    let mut xy = vec![6i32; CHUNK_FRAMES * 2];
    xy.push(9);
    xy.push(10);
    let out = merge_recording(&ms, &xy, 48000, 48000, false).unwrap();
    assert_eq!(out.len(), (CHUNK_FRAMES + 1) * 4);
    assert_eq!(&out[out.len() - 4..], &[7, 8, 9, 10]);
}

#[test]
fn chunk_level_helpers_merge_and_scale() {
    let ms = vec![1, 2, 3, 4];
    let xy = vec![5, 6, 7, 8];
    let out = merge_chunk(&ms, &xy, 2, &Gain::Unity);
    assert_eq!(out, vec![1, 2, 5, 6, 3, 4, 7, 8]);
    let scaled = scale_chunk(&vec![10, -10], 2, &Gain::Normalize { peak: 10 });
    assert_eq!(scaled, vec![2147483647, -2147483647]);
    let whole = merge_streams(&ms, &xy, &Gain::Unity);
    assert_eq!(whole, out);
}

#[test]
fn routing_follows_the_existence_flags() {
    assert_eq!(choose_route(true, true), Route::MergePair);
    assert_eq!(choose_route(true, false), Route::PassthroughXy);
    assert_eq!(choose_route(false, true), Route::PassthroughMs);
}

#[test]
fn stream_validation_rules() {
    assert_eq!(check_channels(2), Ok(()));
    assert_eq!(check_channels(1), Err(ConvertError::UnexpectedChannelCount));
    assert_eq!(check_channels(4), Err(ConvertError::UnexpectedChannelCount));
    assert_eq!(validate_pair_meta(48000, 48000, 10, 10), Ok(()));
    assert_eq!(
        validate_pair_meta(44100, 48000, 10, 10),
        Err(ConvertError::SampleRateMismatch)
    );
    assert_eq!(
        validate_pair_meta(48000, 48000, 10, 11),
        Err(ConvertError::LengthMismatch)
    );
    // A sample-rate mismatch is reported ahead of a length mismatch.
    assert_eq!(
        validate_pair_meta(44100, 48000, 10, 11),
        Err(ConvertError::SampleRateMismatch)
    );
    assert_eq!(check_chunk_sync(8192, 8192), Ok(()));
    assert_eq!(check_chunk_sync(8192, 11), Err(ConvertError::LengthMismatch));
}

#[test]
fn short_read_is_the_only_end_of_stream_signal() {
    assert!(!chunk_was_final(CHUNK_FRAMES));
    assert!(chunk_was_final(CHUNK_FRAMES - 1));
    assert!(chunk_was_final(0));
}

#[test]
fn error_descriptions_are_distinct() {
    let all = [
        ConvertError::NoPairToken,
        ConvertError::NoRecordingFound,
        ConvertError::FilesystemAccessError,
        ConvertError::UnexpectedChannelCount,
        ConvertError::SampleRateMismatch,
        ConvertError::LengthMismatch,
        ConvertError::StreamReadFailure,
        ConvertError::StreamWriteFailure,
        ConvertError::OutputOpenFailure,
    ];
    for (i, a) in all.iter().enumerate() {
        assert!(!a.describe().is_empty());
        for b in all.iter().skip(i + 1) {
            assert_ne!(a.describe(), b.describe());
        }
    }
}
