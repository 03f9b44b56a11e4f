use bbt::wav::{has_readable_formats, parse, WavError};

/// A tiny 44.1 kHz stereo s16 WAV with some silent frames.
fn synth_wav(frames: u32) -> Vec<u8> {
    let channels = 2u16;
    let sample_rate = 44100u32;
    let bits = 16u16;
    let block_align = channels * (bits / 8);
    let data_len = frames * block_align as u32;

    let mut b = Vec::new();
    b.extend_from_slice(b"RIFF");
    b.extend_from_slice(&(36 + data_len).to_le_bytes());
    b.extend_from_slice(b"WAVE");
    b.extend_from_slice(b"fmt ");
    b.extend_from_slice(&16u32.to_le_bytes());
    b.extend_from_slice(&1u16.to_le_bytes());
    b.extend_from_slice(&channels.to_le_bytes());
    b.extend_from_slice(&sample_rate.to_le_bytes());
    b.extend_from_slice(&(sample_rate * block_align as u32).to_le_bytes());
    b.extend_from_slice(&block_align.to_le_bytes());
    b.extend_from_slice(&bits.to_le_bytes());
    b.extend_from_slice(b"data");
    b.extend_from_slice(&data_len.to_le_bytes());
    b.extend(std::iter::repeat(0u8).take(data_len as usize));
    b
}

#[test]
fn parses_canonical_pcm_wav() {
    let w = parse(&synth_wav(100)).expect("valid wav");
    assert_eq!(w.sample_rate, 44100);
    assert_eq!(w.channels, 2);
    assert_eq!(w.bits_per_sample, 16);
    assert_eq!(w.data.len(), 100 * 4);
}

#[test]
fn rejects_non_riff() {
    assert!(parse(b"not a wav file at all").is_err());
}

#[test]
fn rejects_missing_data_chunk() {
    let mut b = Vec::new();
    b.extend_from_slice(b"RIFF");
    b.extend_from_slice(&4u32.to_le_bytes());
    b.extend_from_slice(b"WAVE");
    assert!(parse(&b).is_err());
}

#[test]
fn odd_chunks_are_padded() {
    let mut b = synth_wav(1);
    let tail = b.split_off(12);
    b.extend_from_slice(b"LIST");
    b.extend_from_slice(&3u32.to_le_bytes());
    b.extend_from_slice(&[1, 2, 3, 0]);
    b.extend(tail);
    assert_eq!(parse(&b).unwrap().data, [0, 0, 0, 0]);
}

#[test]
fn wav_errors_have_their_messages() {
    assert_eq!(parse(b"RIFF").err(), Some(WavError::NotRiff));
    assert_eq!(parse(b"RIFF    WAVE").err(), Some(WavError::NoData));
    let data_only = b"RIFF    WAVEdata\x01\x00\x00\x00x";
    assert_eq!(parse(data_only).err(), Some(WavError::IncompleteFormat));
    assert_eq!(WavError::NotRiff.message(), "not a RIFF/WAVE file");
    assert_eq!(WavError::NoData.message(), "WAV has no data chunk");
    assert_eq!(WavError::IncompleteFormat.message(), "WAV fmt chunk incomplete");
}

#[test]
fn cut_format_chunks_are_found() {
    assert!(has_readable_formats(&synth_wav(3)));
    assert!(has_readable_formats(b"nothing"));
    assert!(!has_readable_formats(b"RIFF    WAVEfmt \x02\x00\x00\x00ab"));
}
