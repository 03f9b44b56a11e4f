use bbt::mp4_aac::{
    adts_frame_at, check_audiobook_artifact, containers_match_audiobook, drop_first_adts_frame,
    inspect_mp4_bytes, is_iso_bmff_audio_ext, is_protected_audiobook_path,
    is_zero_priming_aac_m4b_target, parse_elst_priming, profile_from_esds, AdtsError,
    ArtifactFault, AudiobookFacts,
};
use bbt::paths::{MediaPath, Part};

fn frame(payload_len: usize) -> Vec<u8> {
    let total = 7 + payload_len;
    let mut f = vec![0u8; total];
    f[0] = 0xFF;
    f[1] = 0xF1;
    f[2] = 0x50;
    f[3] = 0x80;
    let len = total as u16;
    f[3] |= ((len >> 11) as u8) & 0x03;
    f[4] = ((len >> 3) & 0xFF) as u8;
    f[5] = ((len & 0x07) << 5) as u8;
    f
}

fn adts_silence_two_frames() -> Vec<u8> {
    let mut out = frame(10);
    out.extend(frame(12));
    out
}

fn hex_bytes(s: &str) -> Vec<u8> {
    (0..s.len())
        .step_by(2)
        .map(|i| u8::from_str_radix(&s[i..i + 2], 16).unwrap())
        .collect()
}

fn named(name: &str) -> MediaPath {
    MediaPath { parts: vec![Part::Name(name.to_string())] }
}

#[test]
fn drops_only_the_first_adts_frame() {
    let src = adts_silence_two_frames();
    let (first_len, _) = adts_frame_at(&src, 0).unwrap();
    let stripped = drop_first_adts_frame(&src).unwrap();
    assert_eq!(stripped.len(), src.len() - first_len);
    assert!(adts_frame_at(&stripped, 0).is_some());
}

#[test]
fn elst_media_time_1024_is_priming() {
    let mut payload = vec![0, 0, 0, 0, 0, 0, 0, 1];
    payload.extend(1000u32.to_be_bytes());
    payload.extend(1024u32.to_be_bytes());
    payload.extend(0x00010000u32.to_be_bytes());
    assert_eq!(parse_elst_priming(&payload), Some(1024));
}

#[test]
fn elst_media_time_zero_is_zero_priming() {
    let mut payload = vec![0, 0, 0, 0, 0, 0, 0, 1];
    payload.extend(1000u32.to_be_bytes());
    payload.extend(0u32.to_be_bytes());
    payload.extend(0x00010000u32.to_be_bytes());
    assert_eq!(parse_elst_priming(&payload), Some(0));
}

#[test]
fn zero_priming_target_matches_ipod_m4b() {
    assert!(is_zero_priming_aac_m4b_target(
        true, "aac", "ipod", "m4b", None
    ));
    assert!(is_zero_priming_aac_m4b_target(
        true,
        "aac",
        "m4a",
        "m4a",
        Some(0)
    ));
    assert!(!is_zero_priming_aac_m4b_target(
        true, "aac", "m4a", "m4a", None
    ));
    assert!(!is_zero_priming_aac_m4b_target(
        false, "aac", "ipod", "m4v", None
    ));
    assert!(!is_zero_priming_aac_m4b_target(
        true, "mp3", "ipod", "m4b", None
    ));
}

#[test]
fn protected_extensions_are_refused() {
    assert!(is_protected_audiobook_path(&named("book.m4p")));
    assert!(is_protected_audiobook_path(&named("book.aax")));
    assert!(!is_protected_audiobook_path(&named("book.m4b")));
}

#[test]
fn esds_expandable_length_reports_aac_lc() {
    let payload = hex_bytes(
        "000000000380808025000100048080801740150000000001f4000001f3770580808005121056e500",
    );
    assert_eq!(profile_from_esds(&payload).as_deref(), Some("LC"));
}

#[test]
fn audio_toolbox_is_no_zero_priming_target() {
    assert!(!is_zero_priming_aac_m4b_target(true, "aac_at", "ipod", "m4b", Some(0)));
    assert!(is_zero_priming_aac_m4b_target(true, "AAC", "IPOD", "M4B", Some(1024)));
}

#[test]
fn adts_errors_tell_what_is_missing() {
    assert_eq!(drop_first_adts_frame(&[]), Err(AdtsError::NoFirstFrame));
    assert_eq!(drop_first_adts_frame(&frame(4)), Err(AdtsError::OnlyOneFrame));
    let mut broken = frame(4);
    broken.extend([1, 2, 3]);
    assert_eq!(drop_first_adts_frame(&broken), Err(AdtsError::NoFrameLeft));
    assert_eq!(
        AdtsError::NoFirstFrame.message(),
        "ADTS stream has no complete first frame to drop"
    );
}

#[test]
fn dropping_keeps_every_later_byte() {
    let mut src = adts_silence_two_frames();
    src.extend([9, 8, 7]);
    assert_eq!(drop_first_adts_frame(&src).unwrap(), src[17..]);
}

#[test]
fn mp4_family_extensions() {
    for e in ["m4a", "M4B", "mp4", "m4v", "MOV", "ipod"] {
        assert!(is_iso_bmff_audio_ext(e));
    }
    for e in ["mp3", "", "m4p", "aac"] {
        assert!(!is_iso_bmff_audio_ext(e));
    }
}

#[test]
fn containers_stand_for_each_other() {
    assert!(containers_match_audiobook("M4B", "ipod", "m4b"));
    assert!(containers_match_audiobook("ipod", "m4b", "x"));
    assert!(containers_match_audiobook("m4a", "mp4", "m4a"));
    assert!(!containers_match_audiobook("m4b", "ipod", "m4a"));
    assert!(!containers_match_audiobook("mp3", "ipod", "m4b"));
}

fn boxed(kind: &[u8; 4], body: &[u8]) -> Vec<u8> {
    let mut b = ((body.len() + 8) as u32).to_be_bytes().to_vec();
    b.extend(kind);
    b.extend(body);
    b
}

fn joined(parts: &[Vec<u8>]) -> Vec<u8> {
    parts.concat()
}

/// A file with one sound track: an edit list with a media time, and an AAC entry.
fn book(media_time: u32, rate: u32, channels: u16, with_chapters: bool) -> Vec<u8> {
    let mut elst = vec![0, 0, 0, 0, 0, 0, 0, 1];
    elst.extend(1000u32.to_be_bytes());
    elst.extend(media_time.to_be_bytes());
    elst.extend(0x00010000u32.to_be_bytes());
    let mut hdlr = vec![0u8; 8];
    hdlr.extend(b"soun");
    hdlr.extend([0u8; 12]);
    let esds = hex_bytes(
        "000000000380808025000100048080801740150000000001f4000001f3770580808005121056e500",
    );
    let mut entry = vec![0u8; 16];
    entry.extend(channels.to_be_bytes());
    entry.extend([0, 16, 0, 0, 0, 0]);
    entry.extend((rate << 16).to_be_bytes());
    entry.extend(boxed(b"esds", &esds));
    let mut stsd = vec![0, 0, 0, 0, 0, 0, 0, 1];
    stsd.extend(boxed(b"mp4a", &entry));
    let stbl = boxed(b"stbl", &boxed(b"stsd", &stsd));
    let mdia = boxed(b"mdia", &joined(&[boxed(b"hdlr", &hdlr), boxed(b"minf", &stbl)]));
    let trak = boxed(
        b"trak",
        &joined(&[boxed(b"edts", &boxed(b"elst", &elst)), mdia]),
    );
    let mut moov = trak;
    if with_chapters {
        moov.extend(boxed(b"udta", &boxed(b"chpl", &[0; 9])));
    }
    joined(&[boxed(b"ftyp", b"M4B "), boxed(b"moov", &moov)])
}

#[test]
fn box_tree_gives_priming_profile_rate_and_channels() {
    let info = inspect_mp4_bytes(&book(1024, 44100, 2, true));
    assert!(info.parsed);
    assert_eq!(info.priming_samples, Some(1024));
    assert_eq!(info.profile.as_deref(), Some("LC"));
    assert_eq!(info.sample_rate_hz, Some(44100));
    assert_eq!(info.channels, Some(2));
    assert!(info.has_chapters);
    assert!(!info.has_artwork);
    assert!(!info.encrypted);
}

#[test]
fn three_books_are_told_apart() {
    let farm = inspect_mp4_bytes(&book(0, 44100, 2, false));
    let alien = inspect_mp4_bytes(&book(0, 22050, 2, false));
    let primed = inspect_mp4_bytes(&book(1024, 44100, 2, false));
    assert_eq!((farm.sample_rate_hz, farm.priming_samples), (Some(44100), Some(0)));
    assert_eq!((alien.sample_rate_hz, alien.priming_samples), (Some(22050), Some(0)));
    assert_eq!((primed.sample_rate_hz, primed.priming_samples), (Some(44100), Some(1024)));
}

#[test]
fn short_data_is_not_parsed() {
    let info = inspect_mp4_bytes(&[0; 7]);
    assert!(!info.parsed);
    assert_eq!(info.priming_samples, None);
}

#[test]
fn box_sizes_past_the_end_stop_the_walk() {
    let mut b = book(0, 44100, 2, false);
    let n = b.len();
    b.truncate(n - 1);
    let info = inspect_mp4_bytes(&b);
    assert!(info.parsed);
    assert_eq!(info.priming_samples, None);
    let huge = joined(&[vec![0, 0, 0, 1], b"moov".to_vec(), vec![0xFF; 8]]);
    assert_eq!(inspect_mp4_bytes(&huge).priming_samples, None);
}

fn good() -> AudiobookFacts {
    AudiobookFacts {
        codec: "aac".to_string(),
        profile: Some("LC".to_string()),
        sample_rate_hz: Some(44100),
        channels: Some(2),
        bitrate_kbps: None,
        priming_samples: Some(0),
        has_chapters: None,
        has_artwork: None,
        container: "m4b".to_string(),
    }
}

#[test]
fn every_audiobook_fault_is_found() {
    assert_eq!(check_audiobook_artifact(&good(), 44100, 2), Ok(()));
    let mut f = good();
    f.codec = "mp3".to_string();
    assert_eq!(check_audiobook_artifact(&f, 44100, 2), Err(ArtifactFault::NotAac));
    let mut f = good();
    f.profile = Some("HE-AAC".to_string());
    assert_eq!(check_audiobook_artifact(&f, 44100, 2), Err(ArtifactFault::NotLowComplexity));
    assert_eq!(
        check_audiobook_artifact(&good(), 22050, 2),
        Err(ArtifactFault::WrongSampleRate)
    );
    assert_eq!(
        check_audiobook_artifact(&good(), 44100, 1),
        Err(ArtifactFault::WrongChannels)
    );
    let mut f = good();
    f.priming_samples = Some(1024);
    assert_eq!(check_audiobook_artifact(&f, 44100, 2), Err(ArtifactFault::Primed));
    let mut f = good();
    f.container = "m4a".to_string();
    assert_eq!(check_audiobook_artifact(&f, 44100, 2), Ok(()));
    f.container = "mka".to_string();
    assert_eq!(check_audiobook_artifact(&f, 44100, 2), Err(ArtifactFault::WrongContainer));
    assert_eq!(ArtifactFault::NotAac.message(), "output is not AAC");
}
