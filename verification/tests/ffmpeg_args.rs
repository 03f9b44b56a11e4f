use bbt::adapters::ffmpeg::{
    accept_output, artwork_args, codec_to_ffmpeg, encoders_list_has_libxvid, finish_encode,
    FfmpegAdapter,
};
use bbt::adapters::{EncoderAdapter, Scratch, Stage, Step};
use bbt::binaries::{HostTools, NamedPath, ToolFacts};
use bbt::error::AdapterError;
use bbt::graph::{EncodeParams, ExecutionNode, GaplessTrim, MediaType, SourceFingerprint};
use bbt::host::Timestamp;
use bbt::mp4_aac::AudiobookFacts;
use bbt::probe::{AudioInfo, MediaInfo};
use bbt::text_map::TextMap;

fn adapter(has_libxvid: bool) -> FfmpegAdapter {
    FfmpegAdapter { binary: "/usr/bin/ffmpeg".to_string(), has_libxvid }
}

fn fingerprint() -> SourceFingerprint {
    SourceFingerprint {
        size_bytes: 0,
        modified_at: Timestamp { secs: 1_700_000_000, nanos: 0 },
        duration_secs: None,
        codec_summary: "test".to_string(),
    }
}

fn audio_node(audio_codec: &str, container: &str) -> ExecutionNode {
    audio_node_with_artwork(audio_codec, container, true)
}

fn audio_node_with_artwork(
    audio_codec: &str,
    container: &str,
    preserve_artwork: bool,
) -> ExecutionNode {
    ExecutionNode {
        id: 1,
        sequence: 0,
        input_path: "/tmp/in.flac".to_string(),
        input: fingerprint(),
        output_path: format!("/tmp/out.{container}"),
        adapter: "ffmpeg".to_string(),
        params: EncodeParams {
            media_type: MediaType::Audio,
            container: container.to_string(),
            extension: container.to_string(),
            cbr: true,
            audio_codec: audio_codec.to_string(),
            audio_bitrate_kbps: Some(128),
            sample_rate_hz: 44100,
            channels: 2,
            preserve_artwork,
            video_codec: None,
            video_bitrate_kbps: None,
            width: None,
            height: None,
            frame_rate: None,
            pixel_format: None,
            video_filter: None,
            video_profile: None,
            video_level: None,
            poster_artwork_path: None,
            hwaccel: None,
            movflags: None,
            audio_block_size: None,
            gapless_trim: None,
            aac_priming: None,
            extra: TextMap::new(),
        },
    }
}

fn gpx_mt861b_video_node() -> ExecutionNode {
    let mut node = audio_node("mp3", "avi");
    node.input_path = "/tmp/in.mp4".to_string();
    node.output_path = "/tmp/out.avi".to_string();
    node.params.media_type = MediaType::Video;
    node.params.audio_bitrate_kbps = Some(64);
    node.params.video_codec = Some("xvid".to_string());
    node.params.video_bitrate_kbps = Some(256);
    node.params.width = Some(320);
    node.params.height = Some(240);
    node.params.frame_rate = Some(20.0f32.to_string());
    node
}

fn windows_containing<'a>(args: &'a [String], first: &str) -> Option<&'a str> {
    args.windows(2)
        .find(|w| w[0] == first)
        .map(|w| w[1].as_str())
}

#[test]
fn audio_transcode_maps_audio_and_optional_cover_art() {
    let adapter = adapter(false);
    let args = adapter.build_args(&audio_node("mp3", "mp3")).unwrap();

    assert!(
        !args.contains(&"-vn".to_string()),
        "must not blanket-strip video/art streams"
    );
    assert_eq!(windows_containing(&args, "-map"), Some("0:a"));
    assert!(args.windows(2).any(|w| w[0] == "-map" && w[1] == "0:v?"));
    assert_eq!(windows_containing(&args, "-c:v"), Some("copy"));
    assert_eq!(
        windows_containing(&args, "-disposition:v:0"),
        Some("attached_pic")
    );
}

#[test]
fn mp3_target_uses_id3v2_3_for_device_compatibility() {
    let adapter = adapter(false);
    let args = adapter.build_args(&audio_node("mp3", "mp3")).unwrap();
    assert_eq!(windows_containing(&args, "-id3v2_version"), Some("3"));
}

#[test]
fn audio_only_target_strips_artwork_and_side_streams() {
    let adapter = adapter(false);
    let args = adapter
        .build_args(&audio_node_with_artwork("mp3", "mp3", false))
        .unwrap();

    assert!(args.windows(2).any(|w| w[0] == "-map" && w[1] == "0:a"));
    assert!(!args.windows(2).any(|w| w[0] == "-map" && w[1] == "0:v?"));
    assert!(args.contains(&"-vn".to_string()));
    assert!(args.contains(&"-sn".to_string()));
    assert!(args.contains(&"-dn".to_string()));
}

#[test]
fn non_mp3_target_does_not_force_id3v2_version() {
    let adapter = adapter(false);
    let args = adapter.build_args(&audio_node("alac", "m4a")).unwrap();
    assert_eq!(windows_containing(&args, "-id3v2_version"), None);
}

#[test]
fn always_maps_source_metadata() {
    let adapter = adapter(false);
    let args = adapter.build_args(&audio_node("mp3", "mp3")).unwrap();
    assert_eq!(windows_containing(&args, "-map_metadata"), Some("0"));
}

#[test]
fn wma_target_uses_wmav2_and_skips_cover_art_mapping() {
    let adapter = adapter(false);
    let args = adapter.build_args(&audio_node("wma", "wma")).unwrap();

    assert_eq!(windows_containing(&args, "-codec:a"), Some("wmav2"));
    assert!(args.windows(2).any(|w| w[0] == "-map" && w[1] == "0:a"));
    assert!(!args.windows(2).any(|w| w[0] == "-map" && w[1] == "0:v?"));
    assert_eq!(windows_containing(&args, "-c:v"), None);
}

#[test]
fn gpx_mt861b_xvid_target_uses_real_libxvid_encoder() {
    let adapter = adapter(true);
    let args = adapter.build_args(&gpx_mt861b_video_node()).unwrap();

    assert!(args.windows(2).any(|w| w[0] == "-map" && w[1] == "0:v:0"));
    assert!(args.windows(2).any(|w| w[0] == "-map" && w[1] == "0:a:0?"));
    assert!(args.contains(&"-sn".to_string()));
    assert!(args.contains(&"-dn".to_string()));
    assert_eq!(windows_containing(&args, "-map_chapters"), Some("-1"));
    assert_eq!(windows_containing(&args, "-c:v:0"), Some("libxvid"));
    assert_eq!(
        windows_containing(&args, "-filter:v:0"),
        Some("scale=320:240")
    );
    assert_eq!(windows_containing(&args, "-r:v:0"), Some("20"));
    assert_eq!(windows_containing(&args, "-b:v:0"), Some("256k"));
    assert_eq!(windows_containing(&args, "-codec:a"), Some("libmp3lame"));
    assert_eq!(windows_containing(&args, "-b:a"), Some("64k"));
    assert_eq!(windows_containing(&args, "-ar"), Some("44100"));
    assert_eq!(windows_containing(&args, "-ac"), Some("2"));
}

#[test]
fn video_target_can_attach_poster_and_legacy_ipod_muxer() {
    let adapter = adapter(true);
    let mut node = gpx_mt861b_video_node();
    node.output_path = "/tmp/out.m4v".to_string();
    node.params.container = "ipod".to_string();
    node.params.extension = "m4v".to_string();
    node.params.video_codec = Some("h264_avc".to_string());
    node.params.video_filter = Some(
        "scale=320:240:force_original_aspect_ratio=decrease:force_divisible_by=16".to_string(),
    );
    node.params.video_profile = Some("baseline".to_string());
    node.params.video_level = Some("3.0".to_string());
    node.params.pixel_format = Some("yuv420p".to_string());
    node.params.poster_artwork_path = Some("/tmp/poster.jpg".to_string());
    node.params.hwaccel = Some("videotoolbox".to_string());
    node.params.movflags = Some("+faststart".to_string());

    let args = adapter.build_args(&node).unwrap();

    assert_eq!(windows_containing(&args, "-hwaccel"), Some("videotoolbox"));
    assert!(args
        .windows(2)
        .any(|w| w[0] == "-i" && w[1] == "/tmp/poster.jpg"));
    assert!(args.windows(2).any(|w| w[0] == "-map" && w[1] == "0:v:0"));
    assert!(args.windows(2).any(|w| w[0] == "-map" && w[1] == "0:a:0?"));
    assert!(args.windows(2).any(|w| w[0] == "-map" && w[1] == "1:v:0"));
    assert!(args.contains(&"-sn".to_string()));
    assert!(args.contains(&"-dn".to_string()));
    assert_eq!(windows_containing(&args, "-map_chapters"), Some("-1"));
    assert_eq!(windows_containing(&args, "-c:v:0"), Some("libx264"));
    assert_eq!(windows_containing(&args, "-profile:v:0"), Some("baseline"));
    assert_eq!(windows_containing(&args, "-level:v:0"), Some("3.0"));
    assert_eq!(windows_containing(&args, "-pix_fmt:v:0"), Some("yuv420p"));
    assert_eq!(windows_containing(&args, "-f"), Some("ipod"));
    assert_eq!(windows_containing(&args, "-movflags"), Some("+faststart"));
    assert_eq!(windows_containing(&args, "-c:v:1"), Some("copy"));
    assert_eq!(
        windows_containing(&args, "-disposition:v:1"),
        Some("attached_pic")
    );
}

#[test]
fn is_codec_available_gates_xvid_on_runtime_libxvid_detection() {
    let without_libxvid = adapter(false);
    assert!(!without_libxvid.is_codec_available("xvid"));

    let with_libxvid = adapter(true);
    assert!(with_libxvid.is_codec_available("xvid"));

    assert!(without_libxvid.is_codec_available("mp3"));
    assert!(with_libxvid.is_codec_available("mp3"));
}

#[test]
fn detect_libxvid_true_when_encoders_list_contains_libxvid() {
    let sample = "\
Encoders:
 V..... = Video
 A..... = Audio
 -------
 V....D mpeg4                MPEG-4 part 2
 V....D libxvid              libxvidcore MPEG-4 part 2 (codec mpeg4)
 A....D libmp3lame           libmp3lame MP3 (MPEG audio layer 3)
";
    assert!(encoders_list_has_libxvid(sample));
}

#[test]
fn detect_libxvid_false_when_encoders_list_omits_libxvid() {
    let sample = "\
Encoders:
 V..... = Video
 A..... = Audio
 -------
 V....D mpeg4                MPEG-4 part 2
 A....D libmp3lame           libmp3lame MP3 (MPEG audio layer 3)
";
    assert!(!encoders_list_has_libxvid(sample));
}

#[test]
fn whole_mp3_command_line() {
    let args = adapter(false).build_args(&audio_node("mp3", "mp3")).unwrap();
    let expected = [
        "-y", "-i", "/tmp/in.flac", "-map", "0:a", "-map", "0:v?", "-c:v", "copy",
        "-disposition:v:0", "attached_pic", "-map_metadata", "0", "-id3v2_version", "3",
        "-codec:a", "libmp3lame", "-b:a", "128k", "-reservoir", "0", "-ar", "44100", "-ac", "2",
        "/tmp/out.mp3",
    ];
    assert_eq!(args, expected);
}

#[test]
fn constant_bitrate_options_by_codec() {
    let vorbis = adapter(false).build_args(&audio_node("vorbis", "ogg")).unwrap();
    assert_eq!(windows_containing(&vorbis, "-minrate"), Some("128k"));
    assert_eq!(windows_containing(&vorbis, "-maxrate"), Some("128k"));
    let opus = adapter(false).build_args(&audio_node("opus", "ogg")).unwrap();
    assert_eq!(windows_containing(&opus, "-vbr"), Some("off"));
    let mut free = audio_node("opus", "ogg");
    free.params.cbr = false;
    let args = adapter(false).build_args(&free).unwrap();
    assert_eq!(windows_containing(&args, "-vbr"), None);
}

#[test]
fn trim_block_size_and_extra_options_come_before_the_output() {
    let mut node = audio_node("flac", "flac");
    node.params.gapless_trim = Some(GaplessTrim { output_frames: 11408376 });
    node.params.audio_block_size = Some(256);
    node.params.extra.insert_if_absent("z".to_string(), "".to_string());
    node.params.extra.insert_if_absent("a".to_string(), "1".to_string());
    let args = adapter(false).build_args(&node).unwrap();
    assert_eq!(windows_containing(&args, "-block_size"), Some("256"));
    assert_eq!(
        windows_containing(&args, "-af"),
        Some("atrim=end_sample=11408376,asetpts=PTS-STARTPTS")
    );
    assert_eq!(args[args.len() - 4..], ["-a", "1", "-z", "/tmp/out.flac"]);
}

#[test]
fn unknown_codecs_are_named_video_first() {
    let mut node = gpx_mt861b_video_node();
    node.params.video_codec = Some("theora".to_string());
    node.params.audio_codec = "speex".to_string();
    match adapter(true).build_args(&node) {
        Err(AdapterError::UnsupportedCodec(c)) => assert_eq!(c, "theora"),
        other => panic!("unexpected {other:?}"),
    }
    node.params.video_codec = Some("vp9".to_string());
    match adapter(true).build_args(&node) {
        Err(AdapterError::UnsupportedCodec(c)) => assert_eq!(c, "speex"),
        other => panic!("unexpected {other:?}"),
    }
    assert_eq!(codec_to_ffmpeg("pcm_s16be").unwrap(), "pcm_s16be");
    assert_eq!(codec_to_ffmpeg("vp9").unwrap(), "libvpx-vp9");
}

fn audiobook_node() -> ExecutionNode {
    let mut node = audio_node_with_artwork("aac", "ipod", false);
    node.params.extension = "m4b".to_string();
    node.params.movflags = Some("+faststart".to_string());
    node.output_path = "/tmp/book.m4b".to_string();
    node
}

fn facts(priming: Option<u64>) -> AudiobookFacts {
    AudiobookFacts {
        codec: "aac".to_string(),
        profile: Some("LC".to_string()),
        sample_rate_hz: Some(44100),
        channels: Some(2),
        bitrate_kbps: Some(128),
        priming_samples: priming,
        has_chapters: Some(false),
        has_artwork: Some(false),
        container: "m4b".to_string(),
    }
}

#[test]
fn audiobooks_are_encoded_stripped_and_remuxed() {
    let scratch = Scratch { dir: "/tmp/x".to_string(), sep: '/' };
    let steps = adapter(false).encode(&audiobook_node(), &scratch).unwrap();
    assert_eq!(steps.len(), 3);
    match &steps[0] {
        Step::Run { program, args, stage, subject } => {
            assert_eq!(program, "/usr/bin/ffmpeg");
            assert_eq!(*stage, Stage::Encode);
            assert_eq!(subject, "/tmp/in.flac");
            assert_eq!(windows_containing(args, "-profile:a"), Some("aac_low"));
            assert_eq!(windows_containing(args, "-f"), Some("adts"));
            assert_eq!(args.last().unwrap(), "/tmp/x/encoded.aac");
        }
        other => panic!("unexpected {other:?}"),
    }
    match &steps[1] {
        Step::DropFirstFrame { source, target, .. } => {
            assert_eq!(source, "/tmp/x/encoded.aac");
            assert_eq!(target, "/tmp/x/stripped.aac");
        }
        other => panic!("unexpected {other:?}"),
    }
    match &steps[2] {
        Step::Run { args, .. } => assert_eq!(
            *args,
            [
                "-y", "-i", "/tmp/x/stripped.aac", "-c:a", "copy", "-f", "ipod", "-movflags",
                "+faststart", "/tmp/book.m4b",
            ]
        ),
        other => panic!("unexpected {other:?}"),
    }
}

#[test]
fn other_targets_are_encoded_in_one_run() {
    let scratch = Scratch { dir: "/tmp/x".to_string(), sep: '/' };
    let steps = adapter(false).encode(&audio_node("aac", "m4a"), &scratch).unwrap();
    assert_eq!(steps.len(), 1);
    let failure = steps[0].failure("boom".to_string());
    assert_eq!(failure.message(), "encode failed for /tmp/in.flac: boom");
}

fn book(priming: Option<u64>) -> MediaInfo {
    MediaInfo::Audio(AudioInfo {
        path: "/tmp/book.m4b".to_string(),
        container: "m4b".to_string(),
        codec: "aac".to_string(),
        sample_rate_hz: Some(44100),
        channels: Some(2),
        bits_per_sample: None,
        duration_secs: None,
        bitrate_kbps: Some(128),
        has_artwork: false,
        profile: Some("LC".to_string()),
        priming_samples: priming,
        has_chapters: false,
        tags: TextMap::new(),
    })
}

#[test]
fn encodes_are_judged_by_what_came_out() {
    let node = audiobook_node();
    let ext = || Some("m4b".to_string());
    let a = finish_encode(&node, ext(), 9, Some(5), Some(&book(Some(0)))).unwrap();
    assert_eq!((a.priming_samples, a.size_bytes, a.duration_ms), (Some(0), 9, Some(5)));
    assert_eq!((a.container.as_str(), a.audio_codec.as_deref()), ("m4b", Some("aac")));
    let text = |size: u64, probed: Option<&MediaInfo>| {
        finish_encode(&node, ext(), size, None, probed).err().unwrap().message()
    };
    assert_eq!(text(0, Some(&book(Some(0)))), "encode failed for /tmp/book.m4b: output file is empty");
    assert_eq!(
        text(9, Some(&book(Some(1024)))),
        "encode failed for /tmp/book.m4b: output priming is not 0 samples"
    );
    assert_eq!(text(9, None), "encode failed for /tmp/book.m4b: output could not be probed");
    let plain = audio_node("aac", "m4a");
    let a = finish_encode(&plain, Some("m4a".to_string()), 9, None, Some(&book(Some(1024)))).unwrap();
    assert_eq!(a.priming_samples, Some(1024));
    let a = finish_encode(&plain, Some("m4a".to_string()), 9, Some(1), None).unwrap();
    assert_eq!((a.container.as_str(), a.duration_ms), ("m4a", None));
}

#[test]
fn primed_audiobooks_are_rejected() {
    let node = audiobook_node();
    assert!(accept_output(&node, Some(&facts(Some(0)))).is_ok());
    for priming in [Some(1024), Some(2112), None] {
        match accept_output(&node, Some(&facts(priming))) {
            Err(AdapterError::EncodeFailed { path, stderr }) => {
                assert_eq!(path, "/tmp/book.m4b");
                assert_eq!(stderr, "output priming is not 0 samples");
            }
            other => panic!("unexpected {other:?}"),
        }
    }
    assert!(accept_output(&node, None).is_err());
    assert!(accept_output(&audio_node("aac", "m4a"), None).is_ok());
}

#[test]
fn artwork_is_copied_out() {
    assert_eq!(
        artwork_args("in.m4a", "art.jpg"),
        ["-y", "-i", "in.m4a", "-an", "-vcodec", "copy", "art.jpg"]
    );
}

fn nowhere() -> ToolFacts {
    ToolFacts { named: None, alongside: None, on_path: None }
}

#[test]
fn ffmpeg_is_detected_with_its_encoders() {
    let mut host = HostTools {
        ffmpeg: nowhere(),
        ffprobe: nowhere(),
        atracdenc: nowhere(),
        atracenc: nowhere(),
        wmv9: nowhere(),
    };
    assert!(FfmpegAdapter::detect(&host, "").is_none());
    host.ffmpeg.on_path = Some("/bin/ffmpeg".to_string());
    host.ffmpeg.named = Some(NamedPath { path: "/opt/ffmpeg".to_string(), exists: true });
    let a = FfmpegAdapter::detect(&host, " V....D libxvid   x\n").unwrap();
    assert_eq!(a.binary, "/opt/ffmpeg");
    assert!(a.has_libxvid);
    assert!(a.is_available(true));
    assert!(!a.is_available(false));
}
