use bbt::graph::{ExecutionGraph, MediaType, SourceFingerprint, GRAPH_SCHEMA_VERSION};
use bbt::host::{hash_bytes, Timestamp};
use bbt::inputs::{
    common_prefix, expand_inputs, is_media_extension, is_video_extension, InputEntry,
};
use bbt::paths::{MediaPath, Part};
use bbt::pipeline::resumed_manifest_path;
use bbt::planner::{
    build_plan, check_sources_kept, jobs_of_nodes, plan_to_nodes, resolve_output_path, OutputPlace,
    ProbedInput, TranscodePlan,
};
use bbt::probe::{
    audio_info, audiobook_facts, video_info, AudioInfo, AudioStream, CodecKind, MediaInfo,
    RawAudio, RawStream, RawTag, RawVideo, TagKey, TagValue, VideoInfo, VideoStream,
};
use bbt::profiles::{DeviceProfile, ProfileSource};
use bbt::request::{resolve_transcode_spec, CliMediaType, RequestArgs, RequestError};
use bbt::spec::TranscodeSpec;
use bbt::text_map::TextMap;

fn path(text: &str) -> MediaPath {
    let mut parts = Vec::new();
    if text.starts_with('/') {
        parts.push(Part::Root);
    }
    for piece in text.split('/').filter(|p| !p.is_empty()) {
        parts.push(match piece {
            "." => Part::Here,
            ".." => Part::Up,
            name => Part::Name(name.to_string()),
        });
    }
    MediaPath { parts }
}

fn shown(p: &MediaPath) -> String {
    p.to_text('/')
}

fn args() -> RequestArgs {
    RequestArgs {
        media: CliMediaType::Audio,
        codec: Some("mp3".to_string()),
        container: None,
        extension: None,
        bitrate: Some(128),
        sample_rate: None,
        channels: None,
        cbr: true,
        video_codec: None,
        video_bitrate: None,
        width: None,
        height: None,
        frame_rate: None,
        pixel_format: None,
        video_filter: None,
        video_profile: None,
        video_level: None,
        poster_artwork: None,
        hwaccel: None,
        movflags: None,
        audio_block_size: None,
        audio_only: false,
        aac_priming: None,
    }
}

fn spec_for(codec: &str, container: &str, extension: &str) -> TranscodeSpec {
    let mut a = args();
    a.codec = Some(codec.to_string());
    a.container = Some(container.to_string());
    a.extension = Some(extension.to_string());
    resolve_transcode_spec(&a).unwrap()
}

fn audio(container: &str, codec: &str) -> AudioInfo {
    AudioInfo {
        path: "x".to_string(),
        container: container.to_string(),
        codec: codec.to_string(),
        sample_rate_hz: Some(48000),
        channels: Some(1),
        bits_per_sample: None,
        duration_secs: None,
        bitrate_kbps: None,
        has_artwork: false,
        profile: None,
        priming_samples: None,
        has_chapters: false,
        tags: TextMap::new(),
    }
}

fn input(text: &str, info: MediaInfo) -> ProbedInput {
    ProbedInput {
        path: path(text),
        name: text.to_string(),
        info,
        fingerprint: SourceFingerprint {
            size_bytes: 7,
            modified_at: Timestamp { secs: 5, nanos: 6 },
            duration_secs: None,
            codec_summary: "c".to_string(),
        },
    }
}

fn place(root: Option<&str>) -> OutputPlace {
    OutputPlace {
        dir: path("out"),
        file: None,
        source_root: root.map(path),
        sep: '/',
    }
}

#[test]
fn container_and_extension_default_to_the_codec() {
    let spec = resolve_transcode_spec(&args()).unwrap();
    assert_eq!(spec.container, "mp3");
    assert_eq!(spec.extension, "mp3");
    assert!(spec.preserve_artwork);
    assert_eq!(spec.media_type, MediaType::Audio);
    let mut a = args();
    a.container = Some("m4a".to_string());
    a.audio_only = true;
    let spec = resolve_transcode_spec(&a).unwrap();
    assert_eq!(spec.extension, "m4a");
    assert!(!spec.preserve_artwork);
}

#[test]
fn requests_without_codecs_are_refused() {
    let mut a = args();
    a.codec = None;
    assert_eq!(resolve_transcode_spec(&a).err(), Some(RequestError::MissingCodec));
    let mut a = args();
    a.media = CliMediaType::Video;
    let e = resolve_transcode_spec(&a).err().unwrap();
    assert_eq!(e, RequestError::MissingVideoCodec);
    assert_eq!(e.message(), "--video-codec must be specified for --media video");
    assert_eq!(RequestError::MissingCodec.message(), "--codec must be specified");
}

#[test]
fn outputs_keep_the_directory_structure() {
    let root = Some(path("/music"));
    let out = resolve_output_path(&path("/music/a/b/song.one.flac"), &root, &path("out"), "mp3");
    assert_eq!(shown(&out), "out/a/b/song.one.mp3");
    let out = resolve_output_path(&path("/music/a/song.flac"), &None, &path("out"), "mp3");
    assert_eq!(shown(&out), "out/song.mp3");
    let out = resolve_output_path(&path("x/song"), &root, &path("out"), "mp3");
    assert_eq!(shown(&out), "out/x/song.mp3");
}

#[test]
fn outputs_stand_below_the_output_directory() {
    let root = Some(path("/music"));
    let at = |text: &str| shown(&resolve_output_path(&path(text), &root, &path("/out"), "mp3"));
    assert_eq!(at("/x/a.flac"), "/out/a.mp3");
    assert_eq!(at("/music"), "/out/music.mp3");
    assert_eq!(at("x/a.flac"), "/out/x/a.mp3");
    let drive = MediaPath { parts: vec![Part::Prefix("C:".to_string())] };
    let mut input = drive.clone();
    input.parts.push(Part::Root);
    input.parts.push(Part::Name("a.flac".to_string()));
    let out = resolve_output_path(&input, &Some(drive), &path("/out"), "mp3");
    assert_eq!(shown(&out), "/out/a.mp3");
}

#[test]
fn plans_that_write_over_a_source_are_refused() {
    let spec = spec_for("mp3", "mp3", "mp3");
    let inputs = [
        input("/m/b.flac", MediaInfo::Audio(audio("flac", "flac"))),
        input("/m/a.mp3", MediaInfo::Audio(audio("mp3", "mp3"))),
    ];
    let mut here = place(Some("/m"));
    here.dir = path("/m");
    let plan = build_plan(&inputs, &spec, &here, true).unwrap();
    let at = |text: &str| text.to_string();
    let outputs = [at("/m/b.mp3"), at("/m/a.mp3")];
    let e = check_sources_kept(&plan.jobs, &outputs, &[]).unwrap_err();
    assert_eq!(e.path, "/m/a.mp3");
    assert_eq!(e.message(), "refusing to write over a source file: /m/a.mp3");
    let plan = build_plan(&inputs, &spec, &place(Some("/m")), true).unwrap();
    assert!(check_sources_kept(&plan.jobs, &outputs, &[at("/m/c.mp3")]).is_ok());
    let e = check_sources_kept(&plan.jobs, &outputs, &[at("/m/b.mp3")]).unwrap_err();
    assert_eq!(e.path, plan.jobs[0].output_path);
}

#[test]
fn different_inputs_come_out_apart() {
    let root = Some(path("/music"));
    let at = |text: &str| shown(&resolve_output_path(&path(text), &root, &path("out"), "mp3"));
    assert_ne!(at("/music/a/one.flac"), at("/music/a/two.flac"));
    assert_ne!(at("/music/a/one.flac"), at("/music/b/one.flac"));
    assert_eq!(at("/music/a/one.flac"), at("/music/a/one.wav"));
}

#[test]
fn plans_skip_what_is_already_there() {
    let spec = spec_for("mp3", "mp3", "mp3");
    let inputs = [
        input("/m/a.mp3", MediaInfo::Audio(audio("MP3", "mp3"))),
        input("/m/b/c.flac", MediaInfo::Audio(audio("flac", "flac"))),
    ];
    let plan = build_plan(&inputs, &spec, &place(Some("/m")), false).unwrap();
    assert_eq!(plan.skipped_count, 1);
    assert_eq!(plan.jobs.len(), 1);
    assert_eq!(plan.jobs[0].source_path, "/m/b/c.flac");
    assert_eq!(plan.jobs[0].output_path, "out/b/c.mp3");
    assert_eq!(plan.jobs[0].params.sample_rate_hz, 48000);
    assert_eq!(plan.jobs[0].params.channels, 1);
    assert_eq!(plan.jobs[0].fingerprint.size_bytes, 7);
    let plan = build_plan(&inputs, &spec, &place(Some("/m")), true).unwrap();
    assert_eq!((plan.jobs.len(), plan.skipped_count), (2, 0));
}

#[test]
fn unknown_rates_fall_back_to_cd_audio() {
    let mut a = audio("wav", "pcm_s16le");
    a.sample_rate_hz = None;
    a.channels = None;
    let plan = build_plan(
        &[input("a.wav", MediaInfo::Audio(a))],
        &spec_for("mp3", "mp3", "mp3"),
        &place(None),
        false,
    )
    .unwrap();
    assert_eq!(plan.jobs[0].params.sample_rate_hz, 44100);
    assert_eq!(plan.jobs[0].params.channels, 2);
}

#[test]
fn audiobooks_are_skipped_only_when_they_are_ready() {
    let spec = {
        let mut s = spec_for("aac", "ipod", "m4b");
        s.sample_rate_hz = Some(44100);
        s.channels = Some(2);
        s
    };
    let ready = || {
        let mut a = audio("m4b", "aac");
        a.sample_rate_hz = Some(44100);
        a.channels = Some(2);
        a.profile = Some("LC".to_string());
        a.priming_samples = Some(0);
        a
    };
    let jobs = |a: AudioInfo| {
        build_plan(&[input("b.m4b", MediaInfo::Audio(a))], &spec, &place(None), false)
            .unwrap()
            .jobs
            .len()
    };
    assert_eq!(jobs(ready()), 0);
    let mut a = ready();
    a.priming_samples = Some(1024);
    assert_eq!(jobs(a), 1);
    let mut a = ready();
    a.priming_samples = None;
    assert_eq!(jobs(a), 1);
    let mut a = ready();
    a.sample_rate_hz = Some(22050);
    assert_eq!(jobs(a), 1);
    let mut a = ready();
    a.profile = Some("HE-AAC".to_string());
    assert_eq!(jobs(a), 1);
}

#[test]
fn protected_audiobooks_are_not_planned() {
    let inputs = [
        input("ok.m4b", MediaInfo::Audio(audio("m4b", "aac"))),
        input("drm.AAX", MediaInfo::Audio(audio("aax", "aac"))),
    ];
    let e = build_plan(&inputs, &spec_for("aac", "ipod", "m4b"), &place(None), true)
        .err()
        .unwrap();
    assert_eq!(e.message(), "protected audiobook refused: drm.AAX");
    assert!(build_plan(&inputs, &spec_for("mp3", "mp3", "mp3"), &place(None), true).is_ok());
}

fn film() -> VideoInfo {
    VideoInfo {
        path: "f".to_string(),
        container: "mov".to_string(),
        duration_secs: None,
        video_streams: vec![VideoStream {
            codec: "h264".to_string(),
            width: 640,
            height: 360,
            frame_rate: Some("25".to_string()),
            bitrate_kbps: None,
            pixel_format: None,
        }],
        audio_streams: vec![AudioStream {
            codec: "aac".to_string(),
            sample_rate_hz: Some(32000),
            channels: Some(6),
            bitrate_kbps: None,
        }],
        tags: TextMap::new(),
    }
}

#[test]
fn video_requests_take_open_fields_from_the_source() {
    let mut a = args();
    a.media = CliMediaType::Video;
    a.video_codec = Some("h264".to_string());
    a.width = Some(320);
    let spec = resolve_transcode_spec(&a).unwrap();
    let plan =
        build_plan(&[input("f.mov", MediaInfo::Video(film()))], &spec, &place(None), false).unwrap();
    let p = &plan.jobs[0].params;
    assert_eq!((p.width, p.height), (Some(320), Some(360)));
    assert_eq!(p.frame_rate.as_deref(), Some("25"));
    assert_eq!((p.sample_rate_hz, p.channels), (32000, 6));
    assert_eq!(MediaInfo::Video(film()).codec_summary(), "h264/aac");
}

#[test]
fn padded_m4a_sources_are_trimmed() {
    let tagged = || {
        let mut a = audio("m4a", "aac");
        a.tags.insert_if_absent(
            "com.apple.itunes:itunsmpb".to_string(),
            " 00000000 00000840 000003C8 0000000000AE13F8".to_string(),
        );
        input("a.m4a", MediaInfo::Audio(a))
    };
    let plan =
        build_plan(&[tagged()], &spec_for("mp3", "mp3", "mp3"), &place(None), false).unwrap();
    assert_eq!(plan.jobs[0].params.gapless_trim.unwrap().output_frames, 11408376);
    let plan =
        build_plan(&[tagged()], &spec_for("alac", "m4a", "m4a"), &place(None), false).unwrap();
    assert!(plan.jobs[0].params.gapless_trim.is_none());
}

#[test]
fn a_named_output_file_is_used_as_it_is() {
    let mut p = place(None);
    p.file = Some(path("/x/book.m4b"));
    let plan = build_plan(
        &[input("a.wav", MediaInfo::Audio(audio("wav", "pcm_s16le")))],
        &spec_for("aac", "ipod", "m4b"),
        &p,
        false,
    )
    .unwrap();
    assert_eq!(plan.jobs[0].output_path, "/x/book.m4b");
}

fn assigned_plan() -> TranscodePlan {
    let inputs = [
        input("a.wav", MediaInfo::Audio(audio("wav", "pcm_s16le"))),
        input("b.wav", MediaInfo::Audio(audio("wav", "pcm_s16le"))),
    ];
    let mut plan =
        build_plan(&inputs, &spec_for("mp3", "mp3", "mp3"), &place(None), false).unwrap();
    for job in &mut plan.jobs {
        job.assigned_adapter = Some("ffmpeg".to_string());
    }
    plan
}

#[test]
fn nodes_are_numbered_and_have_fresh_ids() {
    let nodes = plan_to_nodes(&assigned_plan());
    assert_eq!(nodes.len(), 2);
    assert_eq!((nodes[0].sequence, nodes[1].sequence), (0, 1));
    assert_ne!(nodes[0].id, nodes[1].id);
    for n in &nodes {
        assert_eq!((n.id >> 76) & 0xF, 4);
        assert_eq!((n.id >> 62) & 0x3, 2);
        assert_eq!(n.adapter, "ffmpeg");
    }
    let jobs = jobs_of_nodes(&nodes);
    assert_eq!(jobs[1].source_path, "b.wav");
    assert_eq!(jobs[1].assigned_adapter.as_deref(), Some("ffmpeg"));
    assert_eq!(jobs[1].params.audio_codec, "mp3");
}

#[test]
fn graphs_know_their_digest() {
    let graph = ExecutionGraph::new(plan_to_nodes(&assigned_plan()), "abc");
    assert_eq!(graph.schema_version, GRAPH_SCHEMA_VERSION);
    assert_eq!(
        graph.graph_hash,
        "ba7816bf8f01cfea414140de5dae2223b00361a396177a9cb410ff61f20015ad"
    );
    assert!(graph.verify_hash("abc"));
    assert!(!graph.verify_hash("abd"));
    assert!(graph.created_at.secs > 1_600_000_000);
    assert!(graph.created_at.nanos < 2_000_000_000);
    assert_eq!(
        hash_bytes(b""),
        "e3b0c44298fc1c149afbf4c8996fb92427ae41e4649b934ca495991b7852b855"
    );
}

#[test]
fn inputs_are_expanded_and_sorted() {
    let entries = [
        InputEntry::File(path("z/readme.txt")),
        InputEntry::Directory(vec![path("d/b.MP3"), path("d/cover.jpg"), path("d/a.flac"), path("d/x")]),
        InputEntry::File(path("a/first.wav")),
    ];
    let files = expand_inputs(&entries).unwrap();
    let names: Vec<String> = files.iter().map(shown).collect();
    assert_eq!(names, ["a/first.wav", "d/a.flac", "d/b.MP3", "z/readme.txt"]);
    let e = expand_inputs(&[InputEntry::Missing("gone".to_string())]).err().unwrap();
    assert_eq!(e.message(), "input not found: gone");
}

#[test]
fn extensions_of_media_files() {
    assert!(is_media_extension("3g2"));
    assert!(!is_media_extension("MP3"));
    assert!(!is_media_extension(""));
    assert!(is_video_extension("webm"));
    assert!(!is_video_extension("mka"));
}

#[test]
fn common_prefix_is_the_deepest_shared_directory() {
    let paths = [path("/m/a/x.mp3"), path("/m/a/b/y.mp3"), path("/m/c/z.mp3")];
    assert_eq!(shown(&common_prefix(&paths).unwrap()), "/m");
    assert_eq!(shown(&common_prefix(&paths[..2]).unwrap()), "/m/a");
    assert_eq!(shown(&common_prefix(&[path("x.mp3")]).unwrap()), "");
    assert!(common_prefix(&[]).is_none());
    assert_eq!(shown(&common_prefix(&[path("/a/x"), path("b/y")]).unwrap()), "/");
}

#[test]
fn resumed_manifests_stand_beside_the_first() {
    let at = |text: &str| shown(&resumed_manifest_path(&path(text)));
    assert_eq!(at("/o/first.json"), "/o/manifest-resumed.json");
    assert_eq!(at("first.json"), "manifest-resumed.json");
    assert_eq!(at("/"), "/manifest-resumed.json");
}

fn tag(std_key: Option<TagKey>, key: &str, value: TagValue) -> RawTag {
    RawTag { std_key, key: key.to_string(), value }
}

fn raw() -> RawAudio {
    RawAudio {
        path: "p".to_string(),
        extension: Some("FLAC".to_string()),
        codec: CodecKind::Flac,
        sample_rate_hz: Some(96000),
        channels: Some(2),
        bits_per_sample: None,
        bits_per_coded_sample: Some(24),
        duration_secs: None,
        bitrate_kbps: Some(900),
        has_artwork: true,
        format_tags: None,
        log_tags: None,
        mp4: None,
    }
}

#[test]
fn audio_facts_are_put_together() {
    let mut r = raw();
    r.format_tags = Some(vec![tag(None, "COVER", TagValue::Binary)]);
    r.log_tags = Some(vec![
        tag(Some(TagKey::TrackTitle), "TIT2", TagValue::Text("One".to_string())),
        tag(Some(TagKey::TrackTitle), "TT2", TagValue::Text("Two".to_string())),
        tag(Some(TagKey::Other("ReplayGain".to_string())), "R", TagValue::Signed(-12)),
        tag(None, "Année", TagValue::Unsigned(1999)),
        tag(None, "VBR", TagValue::Flag),
        tag(None, "GAP", TagValue::Boolean(false)),
    ]);
    let info = audio_info(r);
    assert_eq!(info.container, "flac");
    assert_eq!(info.codec, "flac");
    assert_eq!(info.bits_per_sample, Some(24));
    assert!(info.has_artwork);
    let listed: Vec<(&str, &str)> = info
        .tags
        .entries
        .iter()
        .map(|e| (e.key.as_str(), e.value.as_str()))
        .collect();
    assert_eq!(
        listed,
        [
            ("année", "1999"),
            ("gap", "false"),
            ("replaygain", "-12"),
            ("title", "One"),
            ("vbr", "true"),
        ]
    );
    assert!(info.matches_codec("FLAC", "Flac"));
    assert!(!info.matches_codec("flac", "ogg"));
    let facts = audiobook_facts(&info);
    assert_eq!(facts.priming_samples, None);
    assert_eq!(facts.has_artwork, Some(true));
}

#[test]
fn audiobook_profiles_are_the_ones_that_devices_tell_apart() {
    let mut a = audio("m4b", "aac");
    for (profile, known) in
        [("LC", true), ("HE-AAC", true), ("HE-AACv2", true), ("MAIN", false), ("AOT-23", false)]
    {
        a.profile = Some(profile.to_string());
        assert_eq!(audiobook_facts(&a).profile.is_some(), known);
    }
}

fn stream(kind: &str, codec: Option<&str>, attached_picture: bool) -> RawStream {
    RawStream {
        kind: Some(kind.to_string()),
        codec: codec.map(|c| c.to_string()),
        attached_picture,
        width: Some(640),
        height: None,
        frame_rate: Some("25".to_string()),
        bits_per_second: Some(128_999),
        pixel_format: None,
        sample_rate_hz: Some(48000),
        channels: Some(2),
    }
}

#[test]
fn video_facts_are_put_together() {
    let mut fast = stream("audio", None, false);
    fast.bits_per_second = Some(u64::MAX);
    let v = video_info(RawVideo {
        path: "f.mkv".to_string(),
        container: "mkv".to_string(),
        duration_secs: None,
        streams: vec![
            stream("video", Some("mjpeg"), true),
            stream("audio", Some("aac"), false),
            stream("video", Some("h264"), false),
            stream("subtitle", Some("srt"), false),
            fast,
        ],
        tags: vec![
            tag(None, "TITLE", TagValue::Text("one".to_string())),
            tag(None, "title", TagValue::Text("two".to_string())),
        ],
    });
    assert_eq!(v.video_streams.len(), 1);
    assert_eq!(v.video_streams[0].codec, "h264");
    assert_eq!((v.video_streams[0].width, v.video_streams[0].height), (640, 0));
    assert_eq!(v.video_streams[0].bitrate_kbps, Some(128));
    assert_eq!(v.video_streams[0].frame_rate.as_deref(), Some("25"));
    assert_eq!(v.audio_streams.len(), 2);
    assert_eq!(v.audio_streams[0].codec, "aac");
    assert_eq!(v.audio_streams[0].sample_rate_hz, Some(48000));
    assert_eq!(v.audio_streams[1].codec, "unknown");
    assert_eq!(v.audio_streams[1].bitrate_kbps, None);
    assert_eq!(v.tags.get("title").as_deref(), Some("one"));
}

#[test]
fn mp4_facts_count_only_for_mp4_files() {
    let mut mp4 = bbt::mp4_aac::inspect_mp4_bytes(&[0; 16]);
    mp4.priming_samples = Some(0);
    mp4.profile = Some("LC".to_string());
    let mut r = raw();
    r.mp4 = Some(mp4);
    assert_eq!(audio_info(r).priming_samples, None);
    let mut mp4 = bbt::mp4_aac::inspect_mp4_bytes(&[0; 16]);
    mp4.priming_samples = Some(0);
    mp4.has_chapters = true;
    let mut r = raw();
    r.extension = Some("m4b".to_string());
    r.mp4 = Some(mp4);
    let info = audio_info(r);
    assert_eq!(info.priming_samples, Some(0));
    assert!(info.has_chapters);
    let mut r = raw();
    r.extension = None;
    assert_eq!(audio_info(r).container, "unknown");
}

#[test]
fn profiles_are_found_built_in_first() {
    assert_eq!(
        DeviceProfile::load_by_id("himd-sp", &[true]).unwrap(),
        ProfileSource::Builtin(3)
    );
    assert_eq!(
        DeviceProfile::load_by_id("mine", &[false, true, true]).unwrap(),
        ProfileSource::Directory(1)
    );
    let e = DeviceProfile::load_by_id("mine", &[false]).err().unwrap();
    assert_eq!(e.message(), "profile not found: 'mine'");
    let profile = DeviceProfile {
        id: "mine".to_string(),
        name: "Mine".to_string(),
        vendor: None,
        description: "d".to_string(),
        container: "ogg".to_string(),
        codec: "vorbis".to_string(),
        bitrate_kbps: Some(192),
        sample_rate_hz: None,
        channels: None,
        cbr: false,
        extension: "oga".to_string(),
        notes: None,
    };
    let spec = profile.to_spec();
    assert_eq!((spec.audio_codec.as_str(), spec.extension.as_str()), ("vorbis", "oga"));
    assert!(!spec.cbr);
}

#[test]
fn path_order_and_parts() {
    let p = path("/a/b.tar.gz");
    assert_eq!(p.file_name().as_deref(), Some("b.tar.gz"));
    assert_eq!(p.file_stem().as_deref(), Some("b.tar"));
    assert_eq!(p.extension().as_deref(), Some("gz"));
    assert_eq!(path("/a/.hidden").extension(), None);
    assert!(path("a/b").sorts_up_to(&path("a/b/c")));
    assert!(!path("b").sorts_up_to(&path("a/z")));
    assert_eq!(shown(&path("a").join(&path("/b"))), "/b");
    assert!(path("/a/b").starts_with(&path("/a")));
    assert!(!path("/ab").starts_with(&path("/a")));
}
