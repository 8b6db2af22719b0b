use h2n2flac::gain::{apply_gain, combined_peak, derive_gain, Gain, FULL_SCALE};
use h2n2flac::pairing::Recording;
use h2n2flac::scan::peak_update;

#[test]
fn unity_gain_is_identity() {
    assert_eq!(apply_gain(&Gain::Unity, 0), 0);
    assert_eq!(apply_gain(&Gain::Unity, i32::MAX), i32::MAX);
    assert_eq!(apply_gain(&Gain::Unity, i32::MIN), i32::MIN);
    assert_eq!(apply_gain(&Gain::Unity, -12345), -12345);
}

#[test]
fn normalization_scales_exactly() {
    let g = Gain::Normalize { peak: 20000 };
    // 10000 * FULL_SCALE / 20000, truncated toward zero.
    assert_eq!(apply_gain(&g, 10000), 1073741823);
    assert_eq!(apply_gain(&g, -20000), -2147483647);
    assert_eq!(apply_gain(&g, 20000), 2147483647);
    assert_eq!(apply_gain(&g, 5000), 536870911);
    assert_eq!(apply_gain(&g, 0), 0);
}

#[test]
fn normalization_saturates_above_the_peak() {
    let g = Gain::Normalize { peak: 1 };
    assert_eq!(apply_gain(&g, 100), FULL_SCALE as i32);
    assert_eq!(apply_gain(&g, -100), -(FULL_SCALE as i32));
}

#[test]
fn gain_derivation_rules() {
    assert_eq!(derive_gain(false, 20000), Gain::Unity);
    assert_eq!(derive_gain(true, 0), Gain::Unity);
    assert_eq!(derive_gain(true, 20000), Gain::Normalize { peak: 20000 });
}

#[test]
fn combined_peak_takes_the_larger() {
    assert_eq!(combined_peak(10, 20), 20);
    assert_eq!(combined_peak(20, 10), 20);
    assert_eq!(combined_peak(7, 7), 7);
}

#[test]
fn maxval_finds_the_peak_magnitude() {
    assert_eq!(Recording::maxval(&vec![10000, -20000, 5000]), 20000);
    assert_eq!(Recording::maxval(&Vec::new()), 0);
    assert_eq!(Recording::maxval(&vec![0, 0, 0]), 0);
    assert_eq!(Recording::maxval(&vec![i32::MIN, i32::MAX]), 0x8000_0000u32);
}

#[test]
fn maxval_crosses_chunk_boundaries() {
    // One sample past a full chunk of stereo frames holds the peak.
    let mut v = vec![7i32; 8192 * 2];
    v.push(-9);
    assert_eq!(Recording::maxval(&v), 9);
}

#[test]
fn peak_update_folds_a_stretch() {
    let v = vec![1, -5, 3, -2];
    assert_eq!(peak_update(0, &v, 0, 4), 5);
    assert_eq!(peak_update(10, &v, 0, 4), 10);
    assert_eq!(peak_update(0, &v, 2, 4), 3);
    assert_eq!(peak_update(4, &v, 0, 0), 4);
}
