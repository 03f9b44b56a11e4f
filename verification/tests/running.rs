use bbt::adapters::atrac::{build_atracdenc_args, build_atracenc_args, AtracAdapter, AtracTool};
use bbt::adapters::wmv9::Wmv9Adapter;
use bbt::adapters::{probe_output, ArtifactInfo, EncoderAdapter, Scratch, Step};
use bbt::binaries::{
    find_atracdenc, find_ffprobe, BinaryPaths, HostTools, NamedPath, Tool, ToolFacts,
};
use bbt::error::{AdapterError, BbtError};
use bbt::executor::{resume_plan, Run};
use bbt::graph::{EncodeParams, ExecutionGraph, ExecutionNode, MediaType, SourceFingerprint};
use bbt::host::{Secs, Timestamp};
use bbt::manifest::{
    artifact_still_valid, check_artifact, count_outcomes, ArtifactRecord, ArtifactStatus,
    Observation, TranscodeManifest, VerificationStatus, MANIFEST_SCHEMA_VERSION,
};
use bbt::pipeline::{exit_code, AfterPlan, Flow, FlowStage};
use bbt::planner::PlannedJob;
use bbt::probe::{AudioInfo, MediaInfo, VideoInfo, VideoStream};
use bbt::progress::{Action, BarStyle, Emitter, Event, EventNames, Phase};
use bbt::report::{
    audio_lines, check_lines, counts_line, graph_line, hwaccel_methods, outcome_line, video_lines,
};
use bbt::resolver::ResolvedCapabilities;
use bbt::text_map::TextMap;

fn params(codec: &str) -> EncodeParams {
    EncodeParams {
        media_type: MediaType::Audio,
        container: codec.to_string(),
        extension: codec.to_string(),
        cbr: true,
        audio_codec: codec.to_string(),
        audio_bitrate_kbps: Some(128),
        sample_rate_hz: 44100,
        channels: 2,
        preserve_artwork: true,
        video_codec: None,
        video_bitrate_kbps: None,
        width: None,
        height: None,
        frame_rate: None,
        pixel_format: None,
        video_filter: None,
        video_profile: None,
        video_level: None,
        poster_artwork_path: None,
        hwaccel: None,
        movflags: None,
        audio_block_size: None,
        gapless_trim: None,
        aac_priming: None,
        extra: TextMap::new(),
    }
}

fn fingerprint(duration: Option<f64>) -> SourceFingerprint {
    SourceFingerprint {
        size_bytes: 1,
        modified_at: Timestamp { secs: 0, nanos: 0 },
        duration_secs: duration.map(|d| Secs { bits: d.to_bits() }),
        codec_summary: "flac".to_string(),
    }
}

fn node(id: u128, codec: &str, adapter: &str) -> ExecutionNode {
    ExecutionNode {
        id,
        sequence: 0,
        input_path: format!("in{id}.flac"),
        input: fingerprint(None),
        output_path: format!("out{id}.{codec}"),
        adapter: adapter.to_string(),
        params: params(codec),
    }
}

fn job(codec: &str) -> PlannedJob {
    PlannedJob {
        source_path: format!("{codec}.flac"),
        output_path: "o".to_string(),
        params: params(codec),
        assigned_adapter: None,
        fingerprint: fingerprint(None),
    }
}

fn nowhere() -> ToolFacts {
    ToolFacts { named: None, alongside: None, on_path: None }
}

fn bare_host() -> HostTools {
    HostTools {
        ffmpeg: nowhere(),
        ffprobe: nowhere(),
        atracdenc: nowhere(),
        atracenc: nowhere(),
        wmv9: nowhere(),
    }
}

fn on_path(p: &str) -> ToolFacts {
    ToolFacts { named: None, alongside: None, on_path: Some(p.to_string()) }
}

fn caps_with_ffmpeg() -> ResolvedCapabilities {
    let mut host = bare_host();
    host.ffmpeg = on_path("/bin/ffmpeg");
    ResolvedCapabilities::detect(&host, "", false)
}

fn scratch() -> Scratch {
    Scratch { dir: "/t".to_string(), sep: '/' }
}

// ---- adapters ----

#[test]
fn atracdenc_arguments() {
    assert_eq!(
        build_atracdenc_args("i", "o", "atrac1", Some(292)).unwrap(),
        ["-e", "atrac1", "-i", "i", "-o", "o"]
    );
    assert_eq!(
        build_atracdenc_args("i", "o", "atrac3", Some(66)).unwrap(),
        ["-e", "atrac3", "--bitrate", "66", "-i", "i", "-o", "o"]
    );
    assert_eq!(
        build_atracdenc_args("i", "o", "atrac3", Some(132)).unwrap(),
        ["-e", "atrac3", "-i", "i", "-o", "o"]
    );
    assert!(build_atracdenc_args("i", "o", "atrac3p", None).is_err());
}

#[test]
fn atracenc_arguments() {
    assert_eq!(build_atracenc_args("i", "o", "atrac1", None).unwrap(), ["--mode=SP", "i", "o"]);
    assert_eq!(build_atracenc_args("i", "o", "atrac3", None).unwrap(), ["--mode=LP2", "i", "o"]);
    assert_eq!(
        build_atracenc_args("i", "o", "atrac3", Some(66)).unwrap(),
        ["--mode=LP4", "i", "o"]
    );
    match build_atracenc_args("i", "o", "mp3", None) {
        Err(AdapterError::UnsupportedCodec(c)) => assert_eq!(c, "mp3"),
        other => panic!("unexpected {other:?}"),
    }
}

#[test]
fn atrac_encodes_in_two_runs() {
    let mut host = bare_host();
    host.ffmpeg = on_path("/bin/ffmpeg");
    host.atracenc = on_path("/bin/atracenc");
    let a = AtracAdapter::detect(&host);
    assert!(a.is_available(true));
    assert_eq!(
        a.encoder_binary(),
        Some(("/bin/atracenc".to_string(), AtracTool::Atracenc))
    );
    let steps = a.encode(&node(1, "atrac1", "atrac"), &scratch()).unwrap();
    match (&steps[0], &steps[1]) {
        (Step::Run { args: decode, .. }, Step::Run { program, args, subject, .. }) => {
            assert_eq!(
                *decode,
                [
                    "-y", "-i", "in1.flac", "-ar", "44100", "-ac", "2", "-codec:a", "pcm_s16le",
                    "-f", "wav", "/t/intermediate.wav",
                ]
            );
            assert_eq!(program, "/bin/atracenc");
            assert_eq!(*args, ["--mode=SP", "/t/intermediate.wav", "out1.atrac1"]);
            assert_eq!(subject, "/t/intermediate.wav");
        }
        other => panic!("unexpected {other:?}"),
    }
    assert_eq!(
        steps[0].failure("x".to_string()).message(),
        "intermediate decode failed for in1.flac: x"
    );
    let steps = a.encode(&node(1, "atrac3p", "atrac"), &scratch()).unwrap();
    assert_eq!(
        steps[1].failure(String::new()).message(),
        "unsupported codec: 'atrac3p'"
    );
}

#[test]
fn atrac_programs_are_found_like_all_others() {
    let mut host = bare_host();
    host.atracdenc.named =
        Some(NamedPath { path: "/opt/atracdenc".to_string(), exists: true });
    host.ffmpeg.alongside = Some("/bbt/ffmpeg".to_string());
    let caps = ResolvedCapabilities::detect(&host, "", false);
    let a = caps.atrac.expect("both programs are there");
    assert_eq!(a.atracdenc.as_deref(), Some("/opt/atracdenc"));
    assert_eq!(a.atracenc, None);
    assert_eq!(a.ffmpeg.as_deref(), Some("/bbt/ffmpeg"));
}

#[test]
fn atrac_needs_its_programs() {
    let none = AtracAdapter::detect(&bare_host());
    assert!(!none.is_available(true));
    match none.encode(&node(1, "atrac1", "atrac"), &scratch()) {
        Err(AdapterError::BinaryNotFound { binary }) => assert_eq!(binary, "atracdenc or atracenc"),
        other => panic!("unexpected {other:?}"),
    }
    let mut host = bare_host();
    host.atracdenc = on_path("a");
    match AtracAdapter::detect(&host).encode(&node(1, "atrac1", "atrac"), &scratch()) {
        Err(e) => assert_eq!(e.message(), "required binary 'ffmpeg' not found in PATH"),
        other => panic!("unexpected {other:?}"),
    }
}

fn wmv_node() -> ExecutionNode {
    let mut n = node(1, "wma", "wmv9");
    n.params.media_type = MediaType::Video;
    n.params.video_codec = Some("wmv9".to_string());
    n.params.width = Some(128);
    n.params.height = Some(96);
    n.params.frame_rate = Some("24".to_string());
    n.params.video_bitrate_kbps = Some(384);
    n
}

#[test]
fn wmv9_encodes_in_three_runs() {
    let a = Wmv9Adapter { helper: "h".to_string(), ffmpeg: Some("f".to_string()) };
    let steps = a.encode(&wmv_node(), &scratch()).unwrap();
    assert_eq!(steps.len(), 3);
    match (&steps[0], &steps[2]) {
        (Step::Run { args: frames, .. }, Step::Run { program, args, .. }) => {
            assert_eq!(
                frames[5],
                "scale=w=128:h=96:force_original_aspect_ratio=decrease,pad=128:96:(ow-iw)/2:(oh-ih)/2:color=black"
            );
            assert_eq!(program, "h");
            assert_eq!(
                *args,
                [
                    "--video", "/t/video.nv12", "--width", "128", "--height", "96", "--fps", "24",
                    "--vbitrate", "384", "--audio", "/t/audio.wav", "--abitrate", "128",
                    "--output", "out1.wma",
                ]
            );
        }
        other => panic!("unexpected {other:?}"),
    }
}

#[test]
fn wmv9_wants_every_number() {
    let a = Wmv9Adapter { helper: "h".to_string(), ffmpeg: Some("f".to_string()) };
    let said = |n: &ExecutionNode| a.encode(n, &scratch()).err().unwrap().message();
    let mut n = wmv_node();
    n.params.height = None;
    assert_eq!(said(&n), "unsupported codec: 'wmv9 requires explicit width and height'");
    let mut n = wmv_node();
    n.params.frame_rate = None;
    assert_eq!(said(&n), "unsupported codec: 'wmv9 requires an explicit frame rate'");
    let mut n = wmv_node();
    n.params.video_bitrate_kbps = None;
    assert_eq!(said(&n), "unsupported codec: 'wmv9 requires an explicit video bitrate'");
    let mut n = wmv_node();
    n.params.audio_bitrate_kbps = None;
    assert_eq!(said(&n), "unsupported codec: 'wmv9 requires an explicit audio bitrate'");
    assert!(a.is_codec_available("wmv9"));
    assert!(!a.is_codec_available("wmv8"));
    assert!(a.is_available(true));
    assert!(!a.is_available(false));
}

// ---- tools ----

#[test]
fn tools_are_sought_in_order() {
    let mut host = bare_host();
    host.ffprobe = ToolFacts {
        named: Some(NamedPath { path: "/env/ffprobe".to_string(), exists: false }),
        alongside: Some("/exe/ffprobe".to_string()),
        on_path: Some("/bin/ffprobe".to_string()),
    };
    assert_eq!(find_ffprobe(&host).as_deref(), Some("/exe/ffprobe"));
    host.ffprobe.named = Some(NamedPath { path: "/env/ffprobe".to_string(), exists: true });
    assert_eq!(find_ffprobe(&host).as_deref(), Some("/env/ffprobe"));
    host.atracenc = on_path("/bin/atracenc");
    assert_eq!(find_atracdenc(&host).as_deref(), Some("/bin/atracenc"));
    host.atracdenc = on_path("/bin/atracdenc");
    assert_eq!(find_atracdenc(&host).as_deref(), Some("/bin/atracdenc"));
    let bins = BinaryPaths::detect(&host);
    assert_eq!(bins.ffmpeg, None);
    assert_eq!(Tool::Wmv9.name(), "bbt-wmv9");
    assert_eq!(Tool::Ffmpeg.variable(), "BBT_FFMPEG_PATH");
}

// ---- resolver ----

#[test]
fn jobs_are_routed_by_codec() {
    let mut host = bare_host();
    host.ffmpeg = on_path("/bin/ffmpeg");
    host.atracdenc = on_path("/bin/atracdenc");
    host.wmv9 = on_path("/bin/bbt-wmv9");
    let caps = ResolvedCapabilities::detect(&host, "", true);
    assert_eq!(caps.adapter_for_codec("atrac3"), Some("atrac"));
    assert_eq!(caps.adapter_for_codec("flac"), Some("ffmpeg"));
    assert_eq!(caps.adapter_for_params(&wmv_node().params), Some("wmv9"));
    let mut film = wmv_node().params;
    film.video_codec = Some("h264".to_string());
    film.audio_codec = "atrac1".to_string();
    assert_eq!(caps.adapter_for_params(&film), Some("ffmpeg"));
    let mut jobs = vec![job("mp3"), job("atrac1")];
    assert!(caps.validate_plan(&jobs).is_ok());
    caps.assign_adapters(&mut jobs);
    assert_eq!(jobs[0].assigned_adapter.as_deref(), Some("ffmpeg"));
    assert_eq!(jobs[1].assigned_adapter.as_deref(), Some("atrac"));
    let without_helper = ResolvedCapabilities::detect(&host, "", false);
    assert!(!without_helper.has_adapter("wmv9"));
    assert!(!without_helper.has_adapter("other"));
}

fn errors_of(caps: &ResolvedCapabilities, jobs: &[PlannedJob]) -> Vec<String> {
    match caps.validate_plan(jobs) {
        Ok(()) => vec![],
        Err(BbtError::CapabilityError(text)) => text.split('\n').map(|l| l.to_string()).collect(),
        other => panic!("unexpected {other:?}"),
    }
}

#[test]
fn jobs_that_cannot_be_executed_are_refused() {
    let mut host = bare_host();
    host.ffmpeg = on_path("/bin/ffmpeg");
    host.atracdenc = on_path("/bin/atracdenc");
    host.wmv9 = on_path("/bin/bbt-wmv9");
    let caps = ResolvedCapabilities::detect(&host, "", true);
    assert_eq!(
        errors_of(&caps, &[job("speex"), job("mp3"), job("atrac3p")]),
        [
            "no adapter can encode to codec 'speex' (file: speex.flac)",
            "no adapter can encode to codec 'atrac3p' (file: atrac3p.flac)",
        ]
    );
    assert!(errors_of(&caps, &[job("pcm_s16be")]).is_empty());

    let mut xvid = job("mp3");
    xvid.params.media_type = MediaType::Video;
    xvid.params.video_codec = Some("xvid".to_string());
    let text = "no adapter can encode to codec 'xvid' (file: mp3.flac)";
    assert_eq!(errors_of(&caps, &[xvid]), [text]);
    let mut xvid = job("mp3");
    xvid.params.media_type = MediaType::Video;
    xvid.params.video_codec = Some("xvid".to_string());
    let with_xvid = ResolvedCapabilities::detect(&host, " V..... libxvid  x", true);
    assert!(errors_of(&with_xvid, &[xvid]).is_empty());

    let mut wmv = job("wma");
    wmv.params = wmv_node().params;
    assert!(errors_of(&caps, &[wmv]).is_empty());
    let mut wmv = job("wma");
    wmv.params = wmv_node().params;
    wmv.params.frame_rate = None;
    assert_eq!(
        errors_of(&caps, &[wmv]),
        ["wmv9 requires an explicit frame rate (file: wma.flac)"]
    );
}

#[test]
fn validation_names_everything_that_is_missing() {
    let caps = ResolvedCapabilities::detect(&bare_host(), "", false);
    assert!(caps.validate_plan(&[]).is_ok());
    let mut wmv = job("wma");
    wmv.params = wmv_node().params;
    match caps.validate_plan(&[job("mp3"), job("atrac1"), wmv]) {
        Err(BbtError::CapabilityError(text)) => {
            let said: Vec<&str> = text.split('\n').collect();
            assert_eq!(said.len(), 5);
            assert!(said[0].starts_with("FFmpeg is required but not found in PATH."));
            assert!(said[1].starts_with("ATRAC encoding requires atracdenc"));
            assert!(said[2].starts_with("WMV9 video encoding requires the Windows build"));
            assert_eq!(said[3], "no adapter can encode to codec 'mp3' (file: mp3.flac)");
            assert_eq!(said[4], "no adapter can encode to codec 'atrac1' (file: atrac1.flac)");
        }
        other => panic!("unexpected {other:?}"),
    }
}

// ---- executing ----

fn graph(ids: &[u128]) -> ExecutionGraph {
    ExecutionGraph::new(ids.iter().map(|i| node(*i, "mp3", "ffmpeg")).collect(), "[]")
}

fn artifact(path: &str) -> ArtifactInfo {
    ArtifactInfo {
        output_path: path.to_string(),
        size_bytes: 10,
        duration_ms: Some(1000),
        container: "mp3".to_string(),
        video_codec: None,
        audio_codec: Some("mp3".to_string()),
        width: None,
        height: None,
        priming_samples: None,
    }
}

fn failed(why: &str) -> AdapterError {
    AdapterError::EncodeFailed { path: "p".to_string(), stderr: why.to_string() }
}

#[test]
fn runs_record_every_node() {
    let g = graph(&[1, 2]);
    let caps = caps_with_ffmpeg();
    let (mut run, event) = Run::start(&g);
    assert!(matches!(event, Event::PhaseStart { phase: Phase::Encode, total: Some(2), .. }));
    let (event, found) = run.begin(&g, &caps);
    assert!(found.is_ok());
    match event {
        Event::EncodeStart { current, total, file, output } => {
            assert_eq!((current, total), (1, 2));
            assert_eq!((file.as_str(), output.as_str()), ("in1.flac", "out1.mp3"));
        }
        other => panic!("unexpected {other:?}"),
    }
    let (_, halted) = run.record(&g, Ok(artifact("out1.mp3")), 5, true);
    assert!(halted.is_none());
    let (event, halted) = run.record(&g, Err(failed("no")), 6, false);
    assert!(halted.is_none());
    match event {
        Event::FileComplete { current, success, error, elapsed_ms, .. } => {
            assert_eq!((current, success, elapsed_ms), (2, false, 6));
            assert_eq!(error.as_deref(), Some("encode failed for p: no"));
        }
        other => panic!("unexpected {other:?}"),
    }
    assert!(run.is_done(&g));
    assert!(matches!(
        run.summary(),
        Event::PhaseComplete { success: Some(1), failed: Some(1), total: Some(2), .. }
    ));
    let m = run.into_manifest(g, 99);
    assert_eq!((m.success_count, m.failure_count, m.carried_forward_count), (1, 1, 0));
    assert_eq!(m.schema_version, MANIFEST_SCHEMA_VERSION);
    assert_eq!(m.artifacts[0].node_id, 1);
    assert!(m.artifacts[0].verified_at.is_some());
    assert!(m.artifacts[0].status.is_good());
    assert!(matches!(m.artifacts[1].status, ArtifactStatus::Failed { .. }));
    assert_eq!(m.artifacts[1].output_path, "out2.mp3");
    assert_ne!(m.manifest_id, m.graph.graph_id);
    assert_eq!(m.total_elapsed_ms, 99);
}

#[test]
fn stopping_runs_hand_the_error_back() {
    let g = graph(&[1]);
    let (mut run, _) = Run::start(&g);
    let (_, halted) = run.record(&g, Err(failed("no")), 1, true);
    assert_eq!(halted.unwrap().message(), "encode failed for p: no");
    assert_eq!(run.failure_count, 0);
    assert!(!run.is_done(&g));
}

#[test]
fn missing_adapters_are_a_planner_bug() {
    let g = graph(&[1]);
    let (run, _) = Run::start(&g);
    let caps = ResolvedCapabilities::detect(&bare_host(), "", false);
    let (_, found) = run.begin(&g, &caps);
    assert_eq!(
        found.err().unwrap(),
        "adapter 'ffmpeg' assigned but unavailable — planner bug"
    );
}

fn record(id: u128, status: ArtifactStatus) -> ArtifactRecord {
    ArtifactRecord {
        node_id: id,
        output_path: format!("out{id}.mp3"),
        size_bytes: 10,
        duration_ms: None,
        container: "mp3".to_string(),
        video_codec: None,
        audio_codec: Some("mp3".to_string()),
        width: None,
        height: None,
        encode_elapsed_ms: 3,
        verified_at: None,
        status,
    }
}

fn song(container: &str, duration: Option<f64>) -> MediaInfo {
    MediaInfo::Audio(AudioInfo {
        path: "s".to_string(),
        container: container.to_string(),
        codec: "mp3".to_string(),
        sample_rate_hz: Some(44100),
        channels: Some(2),
        bits_per_sample: None,
        duration_secs: duration.map(|d| Secs { bits: d.to_bits() }),
        bitrate_kbps: Some(128),
        has_artwork: false,
        profile: None,
        priming_samples: None,
        has_chapters: false,
        tags: TextMap::new(),
    })
}

fn seen(container: &str) -> Observation {
    Observation {
        size_bytes: Some(10),
        probed: Ok(song(container, Some(60.0))),
        duration_is_close: true,
    }
}

fn gone() -> Observation {
    Observation { size_bytes: None, probed: Err("gone".to_string()), duration_is_close: false }
}

#[test]
fn resumed_runs_keep_what_is_intact() {
    let g = graph(&[1, 2, 3]);
    let prior = [
        record(1, ArtifactStatus::Success),
        record(2, ArtifactStatus::Failed { error: "e".to_string() }),
        record(3, ArtifactStatus::CarriedForward { from_manifest_id: 9 }),
    ];
    let found = [seen("MP3"), seen("mp3"), gone()];
    let plan = resume_plan(&g.nodes, &prior, &found);
    assert_eq!(plan, [Some(0), None, None]);
    let (mut run, event) = Run::start_resumed(&g, &plan);
    assert!(matches!(
        event,
        Event::PhaseStart { total: Some(2), carrying_forward: Some(1), .. }
    ));
    run.carry(&g, &prior[0], 77);
    assert!(matches!(
        run.artifacts[0].status,
        ArtifactStatus::CarriedForward { from_manifest_id: 77 }
    ));
    let caps = caps_with_ffmpeg();
    let (event, _) = run.begin(&g, &caps);
    assert!(matches!(event, Event::EncodeStart { current: 1, total: 2, .. }));
    run.record(&g, Ok(artifact("out2.mp3")), 1, false);
    run.record(&g, Ok(artifact("out3.mp3")), 1, false);
    let m = run.into_resumed_manifest(g, 5, 77);
    assert_eq!((m.success_count, m.failure_count, m.carried_forward_count), (2, 0, 1));
    assert_eq!(m.resumed_from, Some(77));
}

// ---- verification ----

fn status_name(s: &VerificationStatus) -> String {
    format!("{s:?}")
}

#[test]
fn artifacts_are_checked_step_by_step() {
    let r = record(1, ArtifactStatus::Success);
    let mut n = node(1, "mp3", "ffmpeg");
    n.input = fingerprint(Some(100.0));
    assert_eq!(status_name(&check_artifact(&r, Some(&n), &gone())), "Missing");
    let mut empty = seen("mp3");
    empty.size_bytes = Some(0);
    assert_eq!(status_name(&check_artifact(&r, Some(&n), &empty)), "Empty");
    let mut broken = seen("mp3");
    broken.probed = Err("bad".to_string());
    match check_artifact(&r, Some(&n), &broken) {
        VerificationStatus::Unreadable { error } => assert_eq!(error, "bad"),
        other => panic!("unexpected {other:?}"),
    }
    let mut plain = record(1, ArtifactStatus::Success);
    plain.audio_codec = None;
    assert_eq!(status_name(&check_artifact(&plain, Some(&n), &broken)), "Intact");
    match check_artifact(&r, Some(&n), &seen("ogg")) {
        VerificationStatus::ShapeMismatch { detail } => {
            assert_eq!(detail, "container: expected mp3, found ogg")
        }
        other => panic!("unexpected {other:?}"),
    }
    let mut far = seen("mp3");
    far.duration_is_close = false;
    match check_artifact(&r, Some(&n), &far) {
        VerificationStatus::DurationMismatch { expected_secs, actual_secs } => {
            assert_eq!(f64::from_bits(expected_secs.bits), 100.0);
            assert_eq!(f64::from_bits(actual_secs.bits), 60.0);
        }
        other => panic!("unexpected {other:?}"),
    }
    assert_eq!(status_name(&check_artifact(&r, None, &far)), "Intact");
    assert_eq!(status_name(&check_artifact(&r, Some(&n), &seen("MP3"))), "Intact");
}

fn film(w: u32, h: u32) -> VideoInfo {
    VideoInfo {
        path: "f".to_string(),
        container: "avi".to_string(),
        duration_secs: None,
        video_streams: vec![VideoStream {
            codec: "xvid".to_string(),
            width: w,
            height: h,
            frame_rate: None,
            bitrate_kbps: Some(256),
            pixel_format: Some("yuv420p".to_string()),
        }],
        audio_streams: vec![],
        tags: TextMap::new(),
    }
}

#[test]
fn sizes_are_compared() {
    let mut r = record(1, ArtifactStatus::Success);
    r.container = "avi".to_string();
    r.video_codec = Some("XVID".to_string());
    r.audio_codec = None;
    r.width = Some(320);
    r.height = Some(240);
    let o = Observation {
        size_bytes: Some(1),
        probed: Ok(MediaInfo::Video(film(320, 200))),
        duration_is_close: true,
    };
    match check_artifact(&r, None, &o) {
        VerificationStatus::ShapeMismatch { detail } => {
            assert_eq!(detail, "dimensions: expected 320x240, found 320x200")
        }
        other => panic!("unexpected {other:?}"),
    }
    assert!(!artifact_still_valid(&r, &o));
    r.height = Some(200);
    assert_eq!(status_name(&check_artifact(&r, None, &o)), "Intact");
    assert!(artifact_still_valid(&r, &o));
}

#[test]
fn codecs_are_compared() {
    let mut r = record(1, ArtifactStatus::Success);
    r.audio_codec = Some("aac".to_string());
    match check_artifact(&r, None, &seen("mp3")) {
        VerificationStatus::ShapeMismatch { detail } => {
            assert_eq!(detail, "audio codec: expected aac, found mp3")
        }
        other => panic!("unexpected {other:?}"),
    }
    assert!(!artifact_still_valid(&r, &seen("mp3")));
    r.audio_codec = Some("MP3".to_string());
    assert_eq!(status_name(&check_artifact(&r, None, &seen("mp3"))), "Intact");
    r.video_codec = Some("mjpeg".to_string());
    match check_artifact(&r, None, &seen("mp3")) {
        VerificationStatus::ShapeMismatch { detail } => {
            assert_eq!(detail, "video codec: expected mjpeg, found none")
        }
        other => panic!("unexpected {other:?}"),
    }
}

#[test]
fn manifests_are_verified_record_by_record() {
    let artifacts = vec![
        record(1, ArtifactStatus::Success),
        record(2, ArtifactStatus::Failed { error: "why".to_string() }),
        record(3, ArtifactStatus::Skipped { reason: "r".to_string() }),
        record(4, ArtifactStatus::CarriedForward { from_manifest_id: 1 }),
        record(5, ArtifactStatus::CarriedForward { from_manifest_id: 1 }),
    ];
    let m = TranscodeManifest::new(graph(&[1, 2, 3, 4, 5]), artifacts, 0, 1, 1);
    let results = m.verify(&[seen("mp3"), gone(), gone(), seen("mp3"), gone()]);
    let names: Vec<String> = results.iter().map(|r| status_name(&r.status)).collect();
    assert_eq!(
        names,
        [
            "Intact",
            "OriginallyFailed { error: \"why\" }",
            "OriginallyFailed { error: \"skipped\" }",
            "CarriedForward",
            "Missing",
        ]
    );
    assert_eq!(count_outcomes(&results), (1, 4));
    assert!(artifact_still_valid(&m.artifacts[3], &seen("mp3")));
    assert!(!artifact_still_valid(&m.artifacts[3], &seen("ogg")));
    assert_eq!(outcome_line(&results[0], "", ""), "  ok  out1.mp3");
    assert_eq!(outcome_line(&results[1], "", ""), "  ORIGINALLY FAILED  out2.mp3: why");
    assert_eq!(outcome_line(&results[3], "", ""), "  carried  out4.mp3");
    assert_eq!(counts_line(1, 4), "\n1 ok, 4 failed");
}

#[test]
fn outputs_are_recorded_as_they_are_probed() {
    let a = probe_output("o.mp3", Some("mp3".to_string()), 9, Some(60000), Some(&song("mp3", None)))
        .unwrap();
    assert_eq!((a.size_bytes, a.duration_ms), (9, Some(60000)));
    assert_eq!(a.audio_codec.as_deref(), Some("mp3"));
    let a = probe_output("o.aea", Some("aea".to_string()), 9, Some(1), None).unwrap();
    assert_eq!((a.container.as_str(), a.duration_ms), ("aea", None));
    let a = probe_output("o.avi", None, 9, None, Some(&MediaInfo::Video(film(1, 2)))).unwrap();
    assert_eq!((a.width, a.height, a.audio_codec), (Some(1), Some(2), None));
    let e = probe_output("o", None, 0, None, None).err().unwrap();
    assert_eq!(e.message(), "encode failed for o: output file is empty");
}

// ---- progress ----

fn names() -> EventNames {
    EventNames { file_name: "song.flac".to_string(), seconds: "1.5".to_string() }
}

fn start(phase: Phase, total: Option<usize>) -> Event {
    Event::PhaseStart { phase, total, carrying_forward: None }
}

#[test]
fn machines_get_the_event_itself() {
    let mut e = Emitter::new(true);
    let actions = e.emit(&start(Phase::Encode, Some(3)), &names());
    assert!(matches!(actions[..], [Action::PrintEvent]));
    assert!(!e.has_bar);
}

#[test]
fn people_get_one_bar_at_a_time() {
    let mut e = Emitter::new(false);
    let actions = e.emit(&start(Phase::Probe, Some(3)), &names());
    assert!(matches!(
        actions[..],
        [Action::StartBar { style: BarStyle::Probing, len: 3 }]
    ));
    let actions = e.emit(&start(Phase::Encode, None), &names());
    assert!(matches!(
        actions[..],
        [Action::FinishBar, Action::StartBar { style: BarStyle::Encoding, len: 0 }]
    ));
    let failure = Event::FileComplete {
        phase: Phase::Encode,
        current: 1,
        total: 1,
        file: "d/song.flac".to_string(),
        output: None,
        elapsed_ms: 0,
        success: false,
        error: Some("bad".to_string()),
    };
    match &e.emit(&failure, &names())[..] {
        [Action::Advance, Action::NoteLine { text }] => assert_eq!(text, "\n  error: bad"),
        other => panic!("unexpected {other:?}"),
    }
    let done = Event::Complete {
        success: 2,
        failed: 1,
        total_elapsed_ms: 1500,
        manifest: "m.json".to_string(),
        carried_forward: None,
        re_encoded: None,
    };
    match &e.emit(&done, &names())[..] {
        [Action::FinishBar, Action::PrintLine { text }] => {
            assert_eq!(text, "\n2 succeeded, 1 failed  (1.5s)\nmanifest: m.json")
        }
        other => panic!("unexpected {other:?}"),
    }
    assert!(!e.has_bar);
}

#[test]
fn plans_are_summed_up() {
    let mut e = Emitter::new(false);
    let complete = |skipped| Event::PhaseComplete {
        phase: Phase::Plan,
        total: None,
        jobs: Some(4),
        skipped: Some(skipped),
        success: None,
        failed: None,
    };
    match &e.emit(&complete(2), &names())[..] {
        [Action::NoteLine { text }] => {
            assert_eq!(text, " 4 to transcode, 2 already in target format")
        }
        other => panic!("unexpected {other:?}"),
    }
    match &e.emit(&complete(0), &names())[..] {
        [Action::NoteLine { text }] => assert_eq!(text, " 4 to transcode"),
        other => panic!("unexpected {other:?}"),
    }
}

// ---- the phases ----

#[test]
fn a_transcode_goes_through_its_phases() {
    let (mut flow, _) = Flow::start(2, false);
    flow.probed_one("a", 3);
    let event = flow.probed_one("b", 4);
    assert!(matches!(event, Event::FileComplete { current: 2, total: 2, elapsed_ms: 4, .. }));
    let (events, next) = flow.planned(1, 1);
    assert!(matches!(next, AfterPlan::Go));
    assert_eq!(events.len(), 4);
    assert!(matches!(events[3], Event::PhaseStart { phase: Phase::Resolve, .. }));
    flow.resolved(None);
    assert_eq!(flow.stage, FlowStage::Encoding);
    let m = TranscodeManifest::new(graph(&[1]), vec![record(1, ArtifactStatus::Success)], 7, 1, 0);
    let event = flow.completed(&m, "m.json");
    assert!(matches!(event, Event::Complete { success: 1, failed: 0, total_elapsed_ms: 7, .. }));
    assert_eq!(flow.stage, FlowStage::Ended);
    assert_eq!((exit_code(0), exit_code(3)), (0, 2));
}

#[test]
fn empty_plans_end_well_unless_nothing_may_be_skipped() {
    let (mut flow, _) = Flow::start(2, false);
    let (events, next) = flow.planned(0, 2);
    assert!(matches!(next, AfterPlan::NothingToDo));
    assert!(matches!(events[3], Event::Complete { success: 0, failed: 0, .. }));
    let (mut flow, _) = Flow::start(2, true);
    match flow.planned(0, 0).1 {
        AfterPlan::Refused(text) => assert_eq!(
            text,
            "--no-skip was set but no encode jobs were planned for 2 input(s) — refusing to exit 0 with an empty output directory"
        ),
        other => panic!("unexpected {other:?}"),
    }
    let (mut flow, _) = Flow::start(1, false);
    flow.planned(1, 0);
    let event = flow.resolved(Some("no ffmpeg".to_string()));
    assert!(matches!(event, Event::OperationFailed { phase: Some(Phase::Resolve), .. }));
    assert_eq!(flow.stage, FlowStage::Ended);
    let (mut flow, _) = Flow::start(1, false);
    assert_eq!(flow.planned_only(1, 0).len(), 2);
}

// ---- what is printed ----

#[test]
fn audio_files_are_described() {
    let mut info = match song("mp3", None) {
        MediaInfo::Audio(a) => a,
        MediaInfo::Video(_) => unreachable!(),
    };
    info.tags.insert_if_absent("title".to_string(), "One".to_string());
    info.priming_samples = Some(0);
    assert_eq!(
        audio_lines(&info, &Some("60.0s (1m0s)".to_string())),
        [
            "path:        s",
            "type:        audio",
            "container:   mp3",
            "codec:       mp3",
            "sample rate: 44100 Hz",
            "channels:    2",
            "duration:    60.0s (1m0s)",
            "bitrate:     ~128 kbps",
            "artwork:     absent",
            "priming:     0 samples",
            "chapters:    absent",
            "tags:",
            "  title: One",
        ]
    );
}

#[test]
fn video_files_are_described() {
    assert_eq!(
        video_lines(&film(320, 240), &None, &[Some("20.000".to_string())]),
        [
            "path:        f",
            "type:        video",
            "container:   avi",
            "video[0]:    xvid 320x240",
            "  fps:       20.000",
            "  bitrate:   ~256 kbps",
            "  pixel fmt: yuv420p",
        ]
    );
}

#[test]
fn acceleration_methods_are_listed_without_headings() {
    assert_eq!(
        hwaccel_methods("Hardware acceleration methods:\n  vdpau \r\n\n\tcuda\nnote:\n"),
        ["vdpau", "cuda"]
    );
}

#[test]
fn machines_are_described() {
    let mut host = bare_host();
    host.ffmpeg = on_path("/bin/ffmpeg");
    host.atracdenc = on_path("/bin/atracdenc");
    let caps = ResolvedCapabilities::detect(&host, "", false);
    let lines = check_lines(&BinaryPaths::detect(&host), &caps);
    assert_eq!(lines[1], "  ffmpeg       found    /bin/ffmpeg");
    assert_eq!(lines[2], "  ffprobe      NOT FOUND");
    assert_eq!(lines[6], "  atrac: available (atrac1, atrac3, atrac3p)");
    assert_eq!(lines.len(), 7);
    assert_eq!(
        graph_line("g.json", 3, "0123456789abcdef0123"),
        "graph written to g.json (3 nodes, hash: 0123456789abcdef)"
    );
}

#[test]
fn errors_read_as_they_should() {
    let t = |s: &str| s.to_string();
    assert_eq!(BbtError::FileNotFound(t("f")).message(), "file not found: f");
    assert_eq!(
        BbtError::ProbeFailed { path: t("f"), reason: t("r") }.message(),
        "probe failed for f: r"
    );
    assert_eq!(BbtError::NoAudioTrack(t("f")).message(), "no audio track found in f");
    assert_eq!(
        BbtError::InvalidProfile { path: t("f"), reason: t("r") }.message(),
        "invalid profile file f: r"
    );
    assert_eq!(BbtError::CapabilityError(t("x")).message(), "capability resolver: x");
    assert_eq!(
        BbtError::NoAdapterForCodec { codec: t("c"), available: t("a, b") }.message(),
        "no adapter can encode to codec 'c' (available: a, b)"
    );
    assert_eq!(BbtError::GraphNotFound(t("g")).message(), "graph file not found: g");
    assert_eq!(
        BbtError::InvalidGraph { path: t("g"), reason: t("r") }.message(),
        "invalid graph file g: r"
    );
    assert_eq!(BbtError::ManifestNotFound(t("m")).message(), "manifest file not found: m");
    assert_eq!(
        BbtError::InvalidManifest { path: t("m"), reason: t("r") }.message(),
        "invalid manifest m: r"
    );
    assert_eq!(BbtError::Io(t("x")).message(), "IO error: x");
    assert_eq!(AdapterError::Io(t("x")).message(), "IO error during encode: x");
}
