use bbt::wav::{parse, Wav};
use bbt::wmv9_helper::{
    block_align, count_blocks, count_frames, frame_duration, frame_sample, nv12_frame_len,
    parse_args, pcm_format, pick_wma_output_type, sound_chunk, ArgsError, HelperArgs, WmaFormat,
};

fn read(line: &str) -> Result<HelperArgs, ArgsError> {
    let words: Vec<String> = line.split_whitespace().map(|w| w.to_string()).collect();
    let fractions: Vec<bool> = words.iter().map(|w| w.parse::<f64>().is_ok()).collect();
    parse_args(&words, &fractions)
}

#[test]
fn helper_command_lines_are_read() {
    let a = read(
        "--video v --width 128 --height 96 --fps 29.97 --vbitrate 384 --audio a --abitrate 1 \
         --abitrate 128 --output o.wmv",
    )
    .unwrap();
    assert_eq!((a.width, a.height), (128, 96));
    assert_eq!((a.vbitrate_kbps, a.abitrate_kbps), (384, 128));
    assert_eq!((a.video.as_str(), a.audio.as_str(), a.output.as_str()), ("v", "a", "o.wmv"));
    assert_eq!(a.fps, "29.97");
}

#[test]
fn helper_command_lines_are_refused() {
    assert!(matches!(read("--video v -h --nonsense"), Err(ArgsError::Help)));
    match read("--video") {
        Err(ArgsError::MissingValue(f)) => assert_eq!(f, "--video"),
        other => panic!("unexpected {other:?}"),
    }
    match read("--width 12x") {
        Err(ArgsError::BadNumber(w)) => assert_eq!(w, "12x"),
        other => panic!("unexpected {other:?}"),
    }
    match read("--fps fast") {
        Err(ArgsError::BadNumber(w)) => assert_eq!(w, "fast"),
        other => panic!("unexpected {other:?}"),
    }
    match read("--height 4294967296") {
        Err(ArgsError::BadNumber(w)) => assert_eq!(w, "4294967296"),
        other => panic!("unexpected {other:?}"),
    }
    match read("--depth 1") {
        Err(ArgsError::Unknown(w)) => assert_eq!(w, "--depth"),
        other => panic!("unexpected {other:?}"),
    }
    match read("--video v --width 1 --fps 1") {
        Err(ArgsError::MissingOption(o)) => assert_eq!(o, "--height"),
        other => panic!("unexpected {other:?}"),
    }
}

#[test]
fn frames_are_counted_and_timed() {
    assert_eq!(nv12_frame_len(128, 96), 18432);
    assert_eq!(count_frames(18432 * 5, 128, 96), Ok(5));
    let e = count_frames(100, 128, 96).unwrap_err();
    assert_eq!(
        e.message(),
        "raw video size 100 is not a whole number of 128x96 NV12 frames (18432 bytes each)"
    );
    assert!(count_frames(0, 0, 96).is_err());
    assert_eq!(frame_duration(24000, 1000), 416666);
    let s = frame_sample(3, 18432, 416666);
    assert_eq!((s.start, s.len, s.time, s.duration), (55296, 18432, 1249998, 416666));
}

fn sound(blocks: usize, rate: u32) -> Wav {
    Wav { sample_rate: rate, channels: 2, bits_per_sample: 16, data: vec![0; blocks * 4] }
}

#[test]
fn sound_chunks_cover_everything() {
    let wav = sound(10000, 44100);
    assert_eq!(block_align(&wav), 4);
    let total = count_blocks(&wav).unwrap();
    let mut at = 0;
    let mut bytes = 0;
    let mut times = Vec::new();
    while at < total {
        let (s, next) = sound_chunk(&wav, at, total);
        assert_eq!(s.start, bytes);
        bytes += s.len;
        times.push((s.time, s.duration));
        at = next;
    }
    assert_eq!(bytes, wav.data.len());
    assert_eq!(times, [(0, 1000000), (1000000, 1000000), (2000000, 267573)]);
    let slow = sound(2, 5);
    assert_eq!(sound_chunk(&slow, 0, 2).1, 1);
}

#[test]
fn sound_without_whole_bytes_has_no_blocks() {
    let mut wav = sound(1, 44100);
    wav.bits_per_sample = 4;
    assert_eq!(count_blocks(&wav), None);
    let f = pcm_format(&sound(1, 44100));
    assert_eq!((f.block_align, f.bytes_per_second), (4, 176400));
}

fn format_of(sample_rate: u32, channels: u32, bytes_per_second: u32) -> WmaFormat {
    WmaFormat { sample_rate, channels, bytes_per_second }
}

#[test]
fn nearest_fitting_wma_format_is_picked() {
    let offered = [
        format_of(44100, 1, 16000),
        format_of(44100, 2, 8000),
        format_of(44100, 2, 12000),
        format_of(44100, 2, 20000),
    ];
    assert_eq!(pick_wma_output_type(&offered, 128, 44100, 2), Some(2));
    assert_eq!(pick_wma_output_type(&offered, 128, 48000, 2), Some(0));
    assert_eq!(pick_wma_output_type(&[], 128, 44100, 2), None);
}

#[test]
fn what_is_written_is_read_back() {
    let mut b = b"RIFF\x2a\0\0\0WAVEfmt \x10\0\0\0\x01\0\x01\0\x40\x1f\0\0\x40\x1f\0\0\x01\0\x08\0data\x06\0\0\0".to_vec();
    b.extend([1, 2, 3, 4, 5, 6]);
    let w = parse(&b).unwrap();
    assert_eq!((w.sample_rate, w.channels, w.bits_per_sample), (8000, 1, 8));
    assert_eq!(w.data, [1, 2, 3, 4, 5, 6]);
}
