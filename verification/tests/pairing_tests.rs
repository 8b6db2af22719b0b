use h2n2flac::error::ConvertError;
use h2n2flac::pairing::{derive_pair_names, replace_bytes, tok_ms_vec, tok_xy_vec, Recording};
use h2n2flac::route::OutputFormat;

#[test]
fn derive_names_from_xy_member() {
    let name = b"R001-XY.WAV".to_vec();
    let (xy, ms) = derive_pair_names(&name).unwrap();
    assert_eq!(xy, b"R001-XY.WAV".to_vec());
    assert_eq!(ms, b"R001-MS.WAV".to_vec());
}

#[test]
fn derive_names_from_ms_member() {
    let name = b"R001-MS.WAV".to_vec();
    let (xy, ms) = derive_pair_names(&name).unwrap();
    assert_eq!(xy, b"R001-XY.WAV".to_vec());
    assert_eq!(ms, b"R001-MS.WAV".to_vec());
}

#[test]
fn name_without_token_is_rejected() {
    let name = b"R001-FOO.WAV".to_vec();
    assert_eq!(derive_pair_names(&name), Err(ConvertError::NoPairToken));
    let r = Recording::new(&name, true, true, &OutputFormat::Flac);
    assert_eq!(r.err(), Some(ConvertError::NoPairToken));
}

#[test]
fn missing_both_members_is_rejected() {
    let name = b"R001-XY.WAV".to_vec();
    let r = Recording::new(&name, false, false, &OutputFormat::Flac);
    assert_eq!(r.err(), Some(ConvertError::NoRecordingFound));
}

#[test]
fn recording_fields_and_output_name() {
    let name = b"TRACK-MS.WAV".to_vec();
    let rec = Recording::new(&name, false, true, &OutputFormat::Flac).unwrap();
    assert_eq!(rec.name_xy(), &b"TRACK-XY.WAV".to_vec());
    assert_eq!(rec.name_ms(), &b"TRACK-MS.WAV".to_vec());
    assert_eq!(rec.outfilename(), &b"TRACK-.flac".to_vec());
    assert_eq!(*rec.xy_exists(), false);
    assert_eq!(*rec.ms_exists(), true);
}

#[test]
fn output_extension_follows_the_format() {
    let name = b"TRACK-MS.WAV".to_vec();
    let rec = Recording::new(&name, true, true, &OutputFormat::Ogg).unwrap();
    assert_eq!(rec.outfilename(), &b"TRACK-.ogg".to_vec());
}

#[test]
fn resolving_from_either_member_agrees() {
    let name = b"GIG-07-XY.WAV".to_vec();
    let (xy, ms) = derive_pair_names(&name).unwrap();
    let from_xy = Recording::new(&xy, true, true, &OutputFormat::Flac).unwrap();
    let from_ms = Recording::new(&ms, true, true, &OutputFormat::Flac).unwrap();
    assert_eq!(from_xy.name_xy(), from_ms.name_xy());
    assert_eq!(from_xy.name_ms(), from_ms.name_ms());
    assert_eq!(from_xy.outfilename(), from_ms.outfilename());
    assert_eq!(*from_xy.xy_exists(), *from_ms.xy_exists());
    assert_eq!(*from_xy.ms_exists(), *from_ms.ms_exists());
}

#[test]
fn every_token_occurrence_is_replaced() {
    let name = b"XY.WAV-XY.WAV".to_vec();
    let (xy, ms) = derive_pair_names(&name).unwrap();
    assert_eq!(ms, b"MS.WAV-MS.WAV".to_vec());
    assert_eq!(xy, b"XY.WAV-XY.WAV".to_vec());
}

#[test]
fn replace_bytes_handles_plain_cases() {
    let xy = tok_xy_vec();
    let ms = tok_ms_vec();
    assert_eq!(replace_bytes(&b"a".to_vec(), &xy, &ms), b"a".to_vec());
    assert_eq!(replace_bytes(&Vec::new(), &xy, &ms), Vec::<u8>::new());
    assert_eq!(
        replace_bytes(&b"xXY.WAVx".to_vec(), &xy, &ms),
        b"xMS.WAVx".to_vec()
    );
}
