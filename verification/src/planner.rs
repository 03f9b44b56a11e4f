//! The planner: from probed inputs and a request to the jobs that satisfy it.
//!
//! The planner resolves every field that the request leaves to the source. No
//! encoding happens here.

use crate::gapless::{parse_itunsmpb, smpb_of};
use crate::graph::{EncodeParams, ExecutionNode, GaplessTrim, MediaType, SourceFingerprint};
use crate::host::{is_random_uuid, new_id};
use crate::mp4_aac::{
    containers_agree, containers_match_audiobook, is_protected_audiobook_path,
    is_protected_extension, is_zero_priming_aac_m4b_target, wants_zero_priming,
};
use crate::paths::{
    file_name_of, joined, path_extension, path_starts_with, path_text, renamed, stem_of,
    with_extension, MediaPath, Part, PartText,
};
use crate::probe::{AudioInfo, MediaInfo};
use crate::spec::TranscodeSpec;
use crate::text::{lower, lower_text, opt_is, opt_text, same_text, words};
use crate::text_map::{lookup, TextMap};
use vstd::prelude::*;
use vstd::string::*;

verus! {

/// An input with what probing found out about it.
#[derive(Debug)]
pub struct ProbedInput {
    pub path: MediaPath,
    /// The path as it was given.
    pub name: String,
    pub info: MediaInfo,
    pub fingerprint: SourceFingerprint,
}

/// A job: resolved parameters, and an adapter once one is assigned.
#[derive(Debug)]
pub struct PlannedJob {
    pub source_path: String,
    pub output_path: String,
    pub params: EncodeParams,
    pub assigned_adapter: Option<String>,
    pub fingerprint: SourceFingerprint,
}

/// The jobs of a batch, and how many inputs need none.
#[derive(Debug)]
pub struct TranscodePlan {
    pub jobs: Vec<PlannedJob>,
    pub skipped_count: usize,
}

/// Where the outputs of a batch go.
#[derive(Debug)]
pub struct OutputPlace {
    pub dir: MediaPath,
    /// The output itself, where the caller names it.
    pub file: Option<MediaPath>,
    /// The directory that the paths of the outputs are relative to.
    pub source_root: Option<MediaPath>,
    /// The separator of paths.
    pub sep: char,
}

// ---- output paths ---------------------------------------------------------

/// Whether a path stands below whatever it is joined to: it has parts, and does
/// not begin at a root or a prefix of its own.
pub open spec fn is_relative(p: Seq<PartText>) -> bool {
    p.len() > 0 && !(p[0] is Root) && !(p[0] is Prefix)
}

/// The file name of a path alone; the path itself where it ends in none.
pub open spec fn name_alone(input: Seq<PartText>) -> Seq<PartText> {
    match file_name_of(input) {
        Some(n) => seq![PartText::Name(n)],
        None => input,
    }
}

/// The part of an input's path that its output keeps: what follows the source
/// root, or all of it where it is outside the root. Where that is no relative
/// path, and where there is no root, the file name alone is kept.
pub open spec fn relative_part(input: Seq<PartText>, root: Option<Seq<PartText>>) -> Seq<PartText> {
    match root {
        Some(base) => {
            let rest = if path_starts_with(input, base) {
                input.skip(base.len() as int)
            } else {
                input
            };
            if is_relative(rest) {
                rest
            } else {
                name_alone(input)
            }
        },
        None => name_alone(input),
    }
}

/// The path of an output: the kept part of its input's path under the output
/// directory, with the extension of the output.
pub open spec fn output_of(
    input: Seq<PartText>,
    root: Option<Seq<PartText>>,
    dir: Seq<PartText>,
    extension: Seq<char>,
) -> Seq<PartText> {
    with_extension(joined(dir, relative_part(input, root)), extension)
}

/// The parts of an optional path.
pub open spec fn opt_path(p: Option<MediaPath>) -> Option<Seq<PartText>> {
    match p {
        Some(m) => Some(m@),
        None => None,
    }
}

fn stands_below(p: &MediaPath) -> (r: bool)
    ensures
        r == is_relative(p@),
{
    if p.parts.len() == 0 {
        return false;
    }
    match &p.parts[0] {
        Part::Root => false,
        Part::Prefix(_) => false,
        _ => true,
    }
}

fn only_name(input: &MediaPath) -> (r: MediaPath)
    ensures
        r@ == name_alone(input@),
{
    match input.file_name() {
        Some(n) => {
            let p = MediaPath { parts: vec![Part::Name(n)] };
            assert(p@ =~= seq![PartText::Name(n@)]);
            p
        },
        None => input.clone(),
    }
}

/// The path of the output of an input. Outputs stand below the output directory.
pub fn resolve_output_path(
    input: &MediaPath,
    source_root: &Option<MediaPath>,
    output_dir: &MediaPath,
    extension: &str,
) -> (r: MediaPath)
    ensures
        r@ == output_of(input@, opt_path(*source_root), output_dir@, extension@),
{
    let relative = match source_root {
        Some(root) => {
            let rest = match input.strip_prefix(root) {
                Some(p) => p,
                None => input.clone(),
            };
            if stands_below(&rest) {
                rest
            } else {
                only_name(input)
            }
        },
        None => only_name(input),
    };
    output_dir.join(&relative).set_extension(extension)
}

/// Outputs keep the directory structure of their inputs: an input below the
/// source root comes out below the output directory, through the same
/// directories, under the same name but for the extension.
pub proof fn law_directory_structure_is_kept(
    root: Seq<PartText>,
    inner: Seq<PartText>,
    name: Seq<char>,
    dir: Seq<PartText>,
    extension: Seq<char>,
)
    requires
        forall|i: int| 0 <= i < inner.len() ==> (#[trigger] inner[i]) is Name,
    ensures
        output_of(
            root + inner.push(PartText::Name(name)),
            Some(root),
            dir,
            extension,
        ) == dir + inner.push(PartText::Name(renamed(name, extension))),
{
    let rel = inner.push(PartText::Name(name));
    let input = root + rel;
    assert(input.take(root.len() as int) =~= root);
    assert(input.skip(root.len() as int) =~= rel);
    assert(rel[0] is Name);
    assert(joined(dir, rel) == dir + rel);
    let p = dir + rel;
    assert(p.last() == PartText::Name(name));
    assert(p.drop_last().push(PartText::Name(renamed(name, extension))) =~= dir
        + inner.push(PartText::Name(renamed(name, extension))));
}

/// The output directory is the root of the output tree: whatever the source root
/// is, an input comes out below the output directory where its path ends in a
/// file name, or where the part of it that is kept is a relative path that names
/// more than the current directory. An input that is not below the output
/// directory is never its own output.
pub proof fn law_outputs_stand_below_the_output_directory(
    input: Seq<PartText>,
    root: Option<Seq<PartText>>,
    dir: Seq<PartText>,
    extension: Seq<char>,
)
    requires
        file_name_of(input) is Some || (is_relative(relative_part(input, root)) && relative_part(
            input,
            root,
        ) != seq![PartText::Here]),
    ensures
        is_relative(relative_part(input, root)),
        path_starts_with(output_of(input, root, dir, extension), dir),
        !path_starts_with(input, dir) ==> output_of(input, root, dir, extension) != input,
{
    let rel = relative_part(input, root);
    let p = joined(dir, rel);
    assert(path_starts_with(p, dir)) by {
        assert(p.take(dir.len() as int) =~= dir);
    }
    let out = with_extension(p, extension);
    if file_name_of(p) is Some {
        if p.len() == dir.len() {
            assert(rel =~= seq![PartText::Here]);
            assert(rel.last() == input.last());
        }
        assert(out.take(dir.len() as int) =~= dir);
    }
}

/// Two inputs below the source root that differ in more than their extensions, in
/// their directories or in their stems, come out apart.
pub proof fn law_distinct_stems_come_out_apart(
    root: Seq<PartText>,
    inner_a: Seq<PartText>,
    a: Seq<char>,
    inner_b: Seq<PartText>,
    b: Seq<char>,
    dir: Seq<PartText>,
    extension: Seq<char>,
)
    requires
        forall|i: int| 0 <= i < inner_a.len() ==> (#[trigger] inner_a[i]) is Name,
        forall|i: int| 0 <= i < inner_b.len() ==> (#[trigger] inner_b[i]) is Name,
        inner_a != inner_b || stem_of(a) != stem_of(b),
    ensures
        output_of(root + inner_a.push(PartText::Name(a)), Some(root), dir, extension) != output_of(
            root + inner_b.push(PartText::Name(b)),
            Some(root),
            dir,
            extension,
        ),
{
    law_directory_structure_is_kept(root, inner_a, a, dir, extension);
    law_directory_structure_is_kept(root, inner_b, b, dir, extension);
    let x = dir + inner_a.push(PartText::Name(renamed(a, extension)));
    let y = dir + inner_b.push(PartText::Name(renamed(b, extension)));
    if x == y {
        let from = dir.len() as int;
        assert(inner_a =~= x.subrange(from, x.len() - 1));
        assert(inner_b =~= y.subrange(from, y.len() - 1));
        assert(x.last() == y.last());
        assert(renamed(a, extension) == renamed(b, extension));
        let s = stem_of(a);
        let t = stem_of(b);
        if extension.len() > 0 {
            let tail = "."@ + extension;
            assert(s + "."@ + extension =~= s + tail);
            assert(t + "."@ + extension =~= t + tail);
            assert(s.len() == t.len());
            assert(s =~= (s + tail).take(s.len() as int));
            assert(t =~= (t + tail).take(t.len() as int));
        }
    }
}

// ---- parameters -----------------------------------------------------------

/// The sample rate of a source: of its first audio stream, if it is a video.
pub open spec fn source_rate(info: MediaInfo) -> Option<u32> {
    match info {
        MediaInfo::Audio(a) => a.sample_rate_hz,
        MediaInfo::Video(v) => if v.audio_streams@.len() > 0 {
            v.audio_streams@[0].sample_rate_hz
        } else {
            None
        },
    }
}

/// The channels of a source: of its first audio stream, if it is a video.
pub open spec fn source_channels(info: MediaInfo) -> Option<u8> {
    match info {
        MediaInfo::Audio(a) => a.channels,
        MediaInfo::Video(v) => if v.audio_streams@.len() > 0 {
            v.audio_streams@[0].channels
        } else {
            None
        },
    }
}

/// The width of the first video stream of a source.
pub open spec fn source_width(info: MediaInfo) -> Option<u32> {
    match info.frame_size() {
        Some((w, _)) => Some(w),
        None => None,
    }
}

/// The height of the first video stream of a source.
pub open spec fn source_height(info: MediaInfo) -> Option<u32> {
    match info.frame_size() {
        Some((_, h)) => Some(h),
        None => None,
    }
}

/// The frame rate of the first video stream of a source.
pub open spec fn source_frame_rate(info: MediaInfo) -> Option<Seq<char>> {
    match info {
        MediaInfo::Audio(_) => None,
        MediaInfo::Video(v) => if v.video_streams@.len() > 0 {
            opt_text(v.video_streams@[0].frame_rate)
        } else {
            None
        },
    }
}

/// How a source is trimmed: one in an m4a container, on its way to another, that
/// says how many padding samples it ends in and how many it has without them.
pub open spec fn trim_of(info: MediaInfo, spec: TranscodeSpec) -> Option<GaplessTrim> {
    match info {
        MediaInfo::Audio(a) => if spec.media_type == MediaType::Audio && lower(a.container@)
            == "m4a"@ && lower(spec.container@) != "m4a"@ {
            match lookup(a.tags@, "com.apple.itunes:itunsmpb"@) {
                Some(tag) => match smpb_of(words(tag)) {
                    Some(s) => if s.trailing_padding > 0 && s.total_pcm_samples is Some {
                        Some(GaplessTrim { output_frames: s.total_pcm_samples->0 })
                    } else {
                        None
                    },
                    None => None,
                },
                None => None,
            }
        } else {
            None
        },
        MediaInfo::Video(_) => None,
    }
}

fn resolve_trim(info: &MediaInfo, spec: &TranscodeSpec) -> (r: Option<GaplessTrim>)
    ensures
        r == trim_of(*info, *spec),
{
    let a = match info {
        MediaInfo::Audio(a) => a,
        MediaInfo::Video(_) => {
            return None;
        },
    };
    if spec.media_type != MediaType::Audio {
        return None;
    }
    if !same_text(lower_text(a.container.as_str()).as_str(), "m4a") || same_text(
        lower_text(spec.container.as_str()).as_str(),
        "m4a",
    ) {
        return None;
    }
    let tag = match a.tags.get("com.apple.itunes:itunsmpb") {
        Some(t) => t,
        None => {
            return None;
        },
    };
    match parse_itunsmpb(tag.as_str()) {
        Some(s) => match s.total_pcm_samples {
            Some(n) => if s.trailing_padding > 0 {
                Some(GaplessTrim { output_frames: n })
            } else {
                None
            },
            None => None,
        },
        None => None,
    }
}

/// The first of two optional values that is present.
pub open spec fn or_else<T>(a: Option<T>, b: Option<T>) -> Option<T> {
    if a is Some {
        a
    } else {
        b
    }
}

/// A value that is present, else the fallback.
pub open spec fn or_value<T>(a: Option<T>, b: T) -> T {
    match a {
        Some(x) => x,
        None => b,
    }
}

/// Whether `p` is the request with the open fields taken from the source. Where
/// neither knows them, the audio is 44100 Hz stereo. The video fields of an audio
/// request stay as they are.
pub open spec fn is_resolved(p: EncodeParams, info: MediaInfo, spec: TranscodeSpec) -> bool {
    let video = spec.media_type == MediaType::Video;
    &&& p.media_type == spec.media_type
    &&& p.container@ == spec.container@
    &&& p.extension@ == spec.extension@
    &&& p.cbr == spec.cbr
    &&& p.audio_codec@ == spec.audio_codec@
    &&& p.audio_bitrate_kbps == spec.audio_bitrate_kbps
    &&& p.sample_rate_hz == or_value(or_else(spec.sample_rate_hz, source_rate(info)), 44100u32)
    &&& p.channels == or_value(or_else(spec.channels, source_channels(info)), 2u8)
    &&& p.preserve_artwork == spec.preserve_artwork
    &&& opt_text(p.video_codec) == opt_text(spec.video_codec)
    &&& p.video_bitrate_kbps == spec.video_bitrate_kbps
    &&& p.width == (if video {
        or_else(spec.width, source_width(info))
    } else {
        spec.width
    })
    &&& p.height == (if video {
        or_else(spec.height, source_height(info))
    } else {
        spec.height
    })
    &&& opt_text(p.frame_rate) == (if video {
        or_else(opt_text(spec.frame_rate), source_frame_rate(info))
    } else {
        opt_text(spec.frame_rate)
    })
    &&& opt_text(p.pixel_format) == opt_text(spec.pixel_format)
    &&& opt_text(p.video_filter) == opt_text(spec.video_filter)
    &&& opt_text(p.video_profile) == opt_text(spec.video_profile)
    &&& opt_text(p.video_level) == opt_text(spec.video_level)
    &&& opt_text(p.poster_artwork_path) == opt_text(spec.poster_artwork_path)
    &&& opt_text(p.hwaccel) == opt_text(spec.hwaccel)
    &&& opt_text(p.movflags) == opt_text(spec.movflags)
    &&& p.audio_block_size == spec.audio_block_size
    &&& p.gapless_trim == trim_of(info, spec)
    &&& p.aac_priming == spec.aac_priming
    &&& p.extra.wf()
    &&& p.extra@.len() == 0
}

fn rate_of(info: &MediaInfo) -> (r: Option<u32>)
    ensures
        r == source_rate(*info),
{
    match info {
        MediaInfo::Audio(a) => a.sample_rate_hz,
        MediaInfo::Video(v) => if v.audio_streams.len() > 0 {
            v.audio_streams[0].sample_rate_hz
        } else {
            None
        },
    }
}

fn channels_of(info: &MediaInfo) -> (r: Option<u8>)
    ensures
        r == source_channels(*info),
{
    match info {
        MediaInfo::Audio(a) => a.channels,
        MediaInfo::Video(v) => if v.audio_streams.len() > 0 {
            v.audio_streams[0].channels
        } else {
            None
        },
    }
}

fn frame_rate_of(info: &MediaInfo) -> (r: Option<String>)
    ensures
        opt_text(r) == source_frame_rate(*info),
{
    match info {
        MediaInfo::Audio(_) => None,
        MediaInfo::Video(v) => if v.video_streams.len() > 0 {
            v.video_streams[0].frame_rate.clone()
        } else {
            None
        },
    }
}

pub fn resolve_params(info: &MediaInfo, spec: &TranscodeSpec) -> (r: EncodeParams)
    ensures
        is_resolved(r, *info, *spec),
{
    let sample_rate_hz: u32 = match spec.sample_rate_hz {
        Some(n) => n,
        None => rate_of(info).unwrap_or(44100),
    };
    let channels: u8 = match spec.channels {
        Some(n) => n,
        None => channels_of(info).unwrap_or(2),
    };
    let mut width = spec.width;
    let mut height = spec.height;
    let mut frame_rate = spec.frame_rate.clone();
    if let MediaType::Video = spec.media_type {
        if let Some((w, h)) = info.dimensions() {
            if width.is_none() {
                width = Some(w);
            }
            if height.is_none() {
                height = Some(h);
            }
        }
        if frame_rate.is_none() {
            frame_rate = frame_rate_of(info);
        }
    }
    EncodeParams {
        media_type: spec.media_type,
        container: spec.container.clone(),
        extension: spec.extension.clone(),
        cbr: spec.cbr,
        audio_codec: spec.audio_codec.clone(),
        audio_bitrate_kbps: spec.audio_bitrate_kbps,
        sample_rate_hz,
        channels,
        preserve_artwork: spec.preserve_artwork,
        video_codec: spec.video_codec.clone(),
        video_bitrate_kbps: spec.video_bitrate_kbps,
        width,
        height,
        frame_rate,
        pixel_format: spec.pixel_format.clone(),
        video_filter: spec.video_filter.clone(),
        video_profile: spec.video_profile.clone(),
        video_level: spec.video_level.clone(),
        poster_artwork_path: spec.poster_artwork_path.clone(),
        hwaccel: spec.hwaccel.clone(),
        movflags: spec.movflags.clone(),
        audio_block_size: spec.audio_block_size,
        gapless_trim: resolve_trim(info, spec),
        aac_priming: spec.aac_priming,
        extra: TextMap::new(),
    }
}

// ---- what needs no job ----------------------------------------------------

/// Whether a request is for an AAC audiobook without priming.
pub open spec fn asks_unprimed(spec: TranscodeSpec) -> bool {
    wants_zero_priming(
        spec.media_type == MediaType::Audio,
        spec.audio_codec@,
        spec.container@,
        spec.extension@,
        spec.aac_priming,
    )
}

/// Whether an audio file already is what an audiobook request asks for: codec,
/// profile, sample rate, channels, priming and container.
pub open spec fn is_ready_audiobook(a: AudioInfo, spec: TranscodeSpec) -> bool {
    &&& lower(a.codec@) == "aac"@
    &&& opt_text(a.profile) == Some("LC"@)
    &&& spec.sample_rate_hz is Some ==> a.sample_rate_hz == spec.sample_rate_hz
    &&& spec.channels is Some ==> a.channels == spec.channels
    &&& a.priming_samples == Some(0u64)
    &&& containers_agree(a.container@, spec.container@, spec.extension@)
}

/// Whether an input already satisfies a request. A video request, and a video
/// source, always need an encode.
pub open spec fn satisfies(info: MediaInfo, spec: TranscodeSpec) -> bool {
    match info {
        MediaInfo::Video(_) => false,
        MediaInfo::Audio(a) => {
            &&& spec.media_type == MediaType::Audio
            &&& if asks_unprimed(spec) {
                is_ready_audiobook(a, spec)
            } else {
                a.is_in(spec.audio_codec@, spec.container@)
            }
        },
    }
}

fn unprimed_request(spec: &TranscodeSpec) -> (r: bool)
    ensures
        r == asks_unprimed(*spec),
{
    is_zero_priming_aac_m4b_target(
        spec.media_type == MediaType::Audio,
        spec.audio_codec.as_str(),
        spec.container.as_str(),
        spec.extension.as_str(),
        spec.aac_priming,
    )
}

fn ready_audiobook(a: &AudioInfo, spec: &TranscodeSpec) -> (r: bool)
    ensures
        r == is_ready_audiobook(*a, *spec),
{
    if !same_text(lower_text(a.codec.as_str()).as_str(), "aac") || !opt_is(&a.profile, "LC") {
        return false;
    }
    if spec.sample_rate_hz.is_some() && a.sample_rate_hz != spec.sample_rate_hz {
        return false;
    }
    if spec.channels.is_some() && a.channels != spec.channels {
        return false;
    }
    if a.priming_samples != Some(0u64) {
        return false;
    }
    containers_match_audiobook(
        a.container.as_str(),
        spec.container.as_str(),
        spec.extension.as_str(),
    )
}

/// Whether an input already satisfies the request.
pub fn already_satisfied(info: &MediaInfo, spec: &TranscodeSpec) -> (r: bool)
    ensures
        r == satisfies(*info, *spec),
{
    match info {
        MediaInfo::Video(_) => false,
        MediaInfo::Audio(a) => {
            if spec.media_type != MediaType::Audio {
                false
            } else if unprimed_request(spec) {
                ready_audiobook(a, spec)
            } else {
                a.matches_codec(spec.audio_codec.as_str(), spec.container.as_str())
            }
        },
    }
}

/// A file with priming is never taken for a finished audiobook, nor is one whose
/// sample rate is not the requested one.
pub proof fn law_primed_files_are_encoded_anew(a: AudioInfo, spec: TranscodeSpec)
    requires
        asks_unprimed(spec),
        a.priming_samples != Some(0u64) || (spec.sample_rate_hz is Some && a.sample_rate_hz
            != spec.sample_rate_hz) || opt_text(a.profile) != Some("LC"@),
    ensures
        !satisfies(MediaInfo::Audio(a), spec),
{
}

// ---- plans ----------------------------------------------------------------

/// Whether an input is a protected audiobook that the request must not touch.
pub open spec fn is_refused(input: ProbedInput, spec: TranscodeSpec) -> bool {
    asks_unprimed(spec) && (path_extension(input.path@) matches Some(e) && is_protected_extension(e))
}

/// Whether an input gets a job.
pub open spec fn needs_job(input: ProbedInput, spec: TranscodeSpec, no_skip: bool) -> bool {
    no_skip || !satisfies(input.info, spec)
}

/// The inputs that get a job, in their order.
pub open spec fn inputs_to_encode(
    inputs: Seq<ProbedInput>,
    spec: TranscodeSpec,
    no_skip: bool,
) -> Seq<ProbedInput>
    decreases inputs.len(),
{
    if inputs.len() == 0 {
        Seq::empty()
    } else {
        let front = inputs_to_encode(inputs.drop_last(), spec, no_skip);
        if needs_job(inputs.last(), spec, no_skip) {
            front.push(inputs.last())
        } else {
            front
        }
    }
}

/// Whether a job is the one of an input.
pub open spec fn is_job_of(
    job: PlannedJob,
    input: ProbedInput,
    spec: TranscodeSpec,
    place: OutputPlace,
) -> bool {
    &&& job.source_path@ == input.name@
    &&& job.output_path@ == (match place.file {
        Some(f) => path_text(f@, place.sep),
        None => path_text(
            output_of(input.path@, opt_path(place.source_root), place.dir@, spec.extension@),
            place.sep,
        ),
    })
    &&& is_resolved(job.params, input.info, spec)
    &&& job.assigned_adapter is None
    &&& job.fingerprint == input.fingerprint
}

/// A protected audiobook among the inputs of an audiobook request.
#[derive(Debug)]
pub struct ProtectedSource {
    pub path: String,
}

impl ProtectedSource {
    /// The message of the refusal.
    pub fn message(&self) -> (r: String)
        ensures
            r@ == "protected audiobook refused: "@ + self.path@,
    {
        let mut m = "protected audiobook refused: ".to_owned();
        m.append(self.path.as_str());
        m
    }
}

/// Plans a batch. Protected audiobooks are refused where the request is for an
/// audiobook; the first of them is named.
pub fn build_plan(
    inputs: &[ProbedInput],
    spec: &TranscodeSpec,
    place: &OutputPlace,
    no_skip: bool,
) -> (r: Result<TranscodePlan, ProtectedSource>)
    ensures
        r is Err <==> exists|i: int| 0 <= i < inputs@.len() && is_refused(#[trigger] inputs@[i], *spec),
        match r {
            Ok(plan) => {
                let kept = inputs_to_encode(inputs@, *spec, no_skip);
                &&& plan.jobs@.len() == kept.len()
                &&& plan.skipped_count == inputs@.len() - kept.len()
                &&& forall|i: int|
                    0 <= i < kept.len() ==> is_job_of(
                        #[trigger] plan.jobs@[i],
                        kept[i],
                        *spec,
                        *place,
                    )
            },
            Err(e) => exists|i: int|
                {
                    &&& 0 <= i < inputs@.len()
                    &&& is_refused(#[trigger] inputs@[i], *spec)
                    &&& forall|j: int| 0 <= j < i ==> !is_refused(#[trigger] inputs@[j], *spec)
                    &&& e.path@ == inputs@[i].name@
                },
        },
{
    let mut jobs: Vec<PlannedJob> = Vec::new();
    let mut skipped_count: usize = 0;
    let unprimed = unprimed_request(spec);
    let mut i: usize = 0;
    while i < inputs.len()
        invariant
            i <= inputs@.len(),
            unprimed == asks_unprimed(*spec),
            forall|j: int| 0 <= j < i ==> !is_refused(#[trigger] inputs@[j], *spec),
            jobs@.len() == inputs_to_encode(inputs@.take(i as int), *spec, no_skip).len(),
            skipped_count == i - jobs@.len(),
            forall|j: int|
                0 <= j < jobs@.len() ==> is_job_of(
                    #[trigger] jobs@[j],
                    inputs_to_encode(inputs@.take(i as int), *spec, no_skip)[j],
                    *spec,
                    *place,
                ),
        decreases inputs@.len() - i,
    {
        let input = &inputs[i];
        if unprimed && is_protected_audiobook_path(&input.path) {
            assert(is_refused(inputs@[i as int], *spec));
            return Err(ProtectedSource { path: input.name.clone() });
        }
        assert(!is_refused(inputs@[i as int], *spec));
        proof {
            assert(inputs@.take(i + 1).drop_last() =~= inputs@.take(i as int));
            assert(inputs@.take(i + 1).last() == inputs@[i as int]);
        }
        if !no_skip && already_satisfied(&input.info, spec) {
            skipped_count = skipped_count + 1;
        } else {
            let output_path = match &place.file {
                Some(f) => f.to_text(place.sep),
                None => resolve_output_path(
                    &input.path,
                    &place.source_root,
                    &place.dir,
                    spec.extension.as_str(),
                ).to_text(place.sep),
            };
            let job = PlannedJob {
                source_path: input.name.clone(),
                output_path,
                params: resolve_params(&input.info, spec),
                assigned_adapter: None,
                fingerprint: input.fingerprint.clone(),
            };
            assert(is_job_of(job, *input, *spec, *place));
            jobs.push(job);
        }
        i = i + 1;
    }
    assert(inputs@.take(inputs@.len() as int) =~= inputs@);
    Ok(TranscodePlan { jobs, skipped_count })
}

/// When nothing may be skipped, every input gets a job.
pub proof fn law_no_skip_plans_every_input(inputs: Seq<ProbedInput>, spec: TranscodeSpec)
    ensures
        inputs_to_encode(inputs, spec, true) == inputs,
    decreases inputs.len(),
{
    if inputs.len() > 0 {
        law_no_skip_plans_every_input(inputs.drop_last(), spec);
        assert(inputs.drop_last().push(inputs.last()) =~= inputs);
    }
}

// ---- sources are kept -----------------------------------------------------

/// Whether the output of a job is a source: by its path that of some job, or by
/// the place it resolves to one of `sources`.
pub open spec fn overwrites(
    jobs: Seq<PlannedJob>,
    i: int,
    outputs: Seq<String>,
    sources: Seq<String>,
) -> bool {
    ||| exists|j: int|
        0 <= j < jobs.len() && (#[trigger] jobs[j]).source_path@ == jobs[i].output_path@
    ||| exists|k: int| 0 <= k < sources.len() && (#[trigger] sources[k])@ == outputs[i]@
}

/// Whether no job writes over a source.
pub open spec fn keeps_sources(
    jobs: Seq<PlannedJob>,
    outputs: Seq<String>,
    sources: Seq<String>,
) -> bool {
    forall|i: int| 0 <= i < jobs.len() ==> !(#[trigger] overwrites(jobs, i, outputs, sources))
}

/// A job that would write over a source.
#[derive(Debug)]
pub struct OverwrittenSource {
    /// The output of the job.
    pub path: String,
}

impl OverwrittenSource {
    /// The message of the refusal.
    pub fn message(&self) -> (r: String)
        ensures
            r@ == "refusing to write over a source file: "@ + self.path@,
    {
        let mut m = "refusing to write over a source file: ".to_owned();
        m.append(self.path.as_str());
        m
    }
}

fn overwrites_source(
    jobs: &[PlannedJob],
    i: usize,
    outputs: &[String],
    sources: &[String],
) -> (r: bool)
    requires
        i < jobs@.len(),
        outputs@.len() == jobs@.len(),
    ensures
        r == overwrites(jobs@, i as int, outputs@, sources@),
{
    let mut j: usize = 0;
    while j < jobs.len()
        invariant
            i < jobs@.len(),
            j <= jobs@.len(),
            forall|k: int|
                0 <= k < j ==> (#[trigger] jobs@[k]).source_path@ != jobs@[i as int].output_path@,
        decreases jobs@.len() - j,
    {
        if same_text(jobs[j].source_path.as_str(), jobs[i].output_path.as_str()) {
            assert(jobs@[j as int].source_path@ == jobs@[i as int].output_path@);
            return true;
        }
        j = j + 1;
    }
    let mut k: usize = 0;
    while k < sources.len()
        invariant
            i < outputs@.len(),
            k <= sources@.len(),
            forall|n: int| 0 <= n < k ==> (#[trigger] sources@[n])@ != outputs@[i as int]@,
        decreases sources@.len() - k,
    {
        if same_text(sources[k].as_str(), outputs[i].as_str()) {
            assert(sources@[k as int]@ == outputs@[i as int]@);
            return true;
        }
        k = k + 1;
    }
    false
}

/// Whether the jobs of a plan leave every source as it is; otherwise the first
/// that does not is named. `outputs` says where the output of each job resolves
/// to, and `sources` where the sources do.
pub fn check_sources_kept(
    jobs: &[PlannedJob],
    outputs: &[String],
    sources: &[String],
) -> (r: Result<(), OverwrittenSource>)
    requires
        outputs@.len() == jobs@.len(),
    ensures
        r is Ok <==> keeps_sources(jobs@, outputs@, sources@),
        r matches Err(e) ==> exists|i: int|
            {
                &&& 0 <= i < jobs@.len()
                &&& #[trigger] overwrites(jobs@, i, outputs@, sources@)
                &&& forall|j: int|
                    0 <= j < i ==> !(#[trigger] overwrites(jobs@, j, outputs@, sources@))
                &&& e.path@ == jobs@[i].output_path@
            },
{
    let mut i: usize = 0;
    while i < jobs.len()
        invariant
            i <= jobs@.len(),
            outputs@.len() == jobs@.len(),
            forall|j: int|
                0 <= j < i ==> !(#[trigger] overwrites(jobs@, j, outputs@, sources@)),
        decreases jobs@.len() - i,
    {
        if overwrites_source(jobs, i, outputs, sources) {
            return Err(OverwrittenSource { path: jobs[i].output_path.clone() });
        }
        i = i + 1;
    }
    Ok(())
}

/// Source files are never modified: in a plan that passed the check, no output is
/// the source of any job, nor any other file that counts as a source.
pub proof fn law_checked_plans_keep_their_sources(
    jobs: &[PlannedJob],
    outputs: &[String],
    sources: &[String],
    r: Result<(), OverwrittenSource>,
    i: int,
)
    requires
        outputs@.len() == jobs@.len(),
        call_ensures(check_sources_kept, (jobs, outputs, sources), r),
        r is Ok,
        0 <= i < jobs@.len(),
    ensures
        jobs@[i].output_path@ != jobs@[i].source_path@,
        forall|j: int|
            0 <= j < jobs@.len() ==> (#[trigger] jobs@[j]).source_path@ != jobs@[i].output_path@,
        forall|k: int| 0 <= k < sources@.len() ==> (#[trigger] sources@[k])@ != outputs@[i]@,
{
    assert(keeps_sources(jobs@, outputs@, sources@));
    assert(!overwrites(jobs@, i, outputs@, sources@));
    assert(jobs@[i].source_path@ != jobs@[i].output_path@);
}

// ---- nodes ----------------------------------------------------------------

/// Whether a node is the frozen form of a job at a place in the graph.
pub open spec fn is_node_of(node: ExecutionNode, job: PlannedJob, i: int) -> bool {
    &&& is_random_uuid(node.id)
    &&& node.sequence == i
    &&& node.input_path@ == job.source_path@
    &&& node.input == job.fingerprint
    &&& node.output_path@ == job.output_path@
    &&& Some(node.adapter@) == opt_text(job.assigned_adapter)
    &&& job.params.agrees(node.params)
}

/// The nodes of a plan whose jobs have their adapters.
pub fn plan_to_nodes(plan: &TranscodePlan) -> (r: Vec<ExecutionNode>)
    requires
        forall|i: int|
            0 <= i < plan.jobs@.len() ==> (#[trigger] plan.jobs@[i]).assigned_adapter is Some,
        plan.jobs@.len() <= u32::MAX,
    ensures
        r@.len() == plan.jobs@.len(),
        forall|i: int| 0 <= i < r@.len() ==> is_node_of(#[trigger] r@[i], plan.jobs@[i], i),
{
    let mut nodes: Vec<ExecutionNode> = Vec::new();
    let mut i: usize = 0;
    while i < plan.jobs.len()
        invariant
            i <= plan.jobs@.len(),
            plan.jobs@.len() <= u32::MAX,
            forall|j: int|
                0 <= j < plan.jobs@.len() ==> (#[trigger] plan.jobs@[j]).assigned_adapter is Some,
            nodes@.len() == i,
            forall|j: int|
                0 <= j < nodes@.len() ==> is_node_of(#[trigger] nodes@[j], plan.jobs@[j], j),
        decreases plan.jobs@.len() - i,
    {
        let job = &plan.jobs[i];
        assert(plan.jobs@[i as int].assigned_adapter is Some);
        let adapter = match &job.assigned_adapter {
            Some(a) => a.clone(),
            None => String::new(),
        };
        nodes.push(
            ExecutionNode {
                id: new_id(),
                sequence: i as u32,
                input_path: job.source_path.clone(),
                input: job.fingerprint.clone(),
                output_path: job.output_path.clone(),
                adapter,
                params: job.params.clone(),
            },
        );
        i = i + 1;
    }
    nodes
}

/// Whether a job asks again for what a node did.
pub open spec fn is_job_again(job: PlannedJob, node: ExecutionNode) -> bool {
    &&& job.source_path@ == node.input_path@
    &&& job.output_path@ == node.output_path@
    &&& node.params.agrees(job.params)
    &&& opt_text(job.assigned_adapter) == Some(node.adapter@)
    &&& job.fingerprint == node.input
}

/// The jobs that a graph came from, to validate it once more before it runs.
pub fn jobs_of_nodes(nodes: &[ExecutionNode]) -> (r: Vec<PlannedJob>)
    ensures
        r@.len() == nodes@.len(),
        forall|i: int| 0 <= i < r@.len() ==> is_job_again(#[trigger] r@[i], nodes@[i]),
{
    let mut jobs: Vec<PlannedJob> = Vec::new();
    let mut i: usize = 0;
    while i < nodes.len()
        invariant
            i <= nodes@.len(),
            jobs@.len() == i,
            forall|j: int| 0 <= j < jobs@.len() ==> is_job_again(#[trigger] jobs@[j], nodes@[j]),
        decreases nodes@.len() - i,
    {
        let n = &nodes[i];
        jobs.push(
            PlannedJob {
                source_path: n.input_path.clone(),
                output_path: n.output_path.clone(),
                params: n.params.clone(),
                assigned_adapter: Some(n.adapter.clone()),
                fingerprint: n.input.clone(),
            },
        );
        i = i + 1;
    }
    jobs
}

// ---- laws -----------------------------------------------------------------

/// What a request fixes is what the encode gets, whatever the source is like.
pub proof fn law_requested_values_win(info: MediaInfo, spec: TranscodeSpec, r: EncodeParams)
    requires
        call_ensures(resolve_params, (&info, &spec), r),
    ensures
        spec.sample_rate_hz matches Some(n) ==> r.sample_rate_hz == n,
        spec.channels matches Some(n) ==> r.channels == n,
        spec.width matches Some(n) ==> r.width == Some(n),
        spec.height matches Some(n) ==> r.height == Some(n),
        spec.frame_rate matches Some(f) ==> (r.frame_rate matches Some(g) && g@ == f@),
{
}

/// What a request leaves open comes from the source: the sound of an audio file,
/// or of the first audio stream of a video, and, for a video request, the picture
/// of the first video stream. Sound of which neither says anything is 44100 Hz
/// stereo; a picture of which neither says anything stays open.
pub proof fn law_open_values_come_from_the_source(
    info: MediaInfo,
    spec: TranscodeSpec,
    r: EncodeParams,
)
    requires
        call_ensures(resolve_params, (&info, &spec), r),
    ensures
        spec.sample_rate_hz is None ==> match info {
            MediaInfo::Audio(a) => r.sample_rate_hz == (if a.sample_rate_hz is Some {
                a.sample_rate_hz->0
            } else {
                44100
            }),
            MediaInfo::Video(v) => r.sample_rate_hz == (if v.audio_streams@.len() > 0
                && v.audio_streams@[0].sample_rate_hz is Some {
                v.audio_streams@[0].sample_rate_hz->0
            } else {
                44100
            }),
        },
        spec.channels is None ==> match info {
            MediaInfo::Audio(a) => r.channels == (if a.channels is Some {
                a.channels->0
            } else {
                2
            }),
            MediaInfo::Video(v) => r.channels == (if v.audio_streams@.len() > 0
                && v.audio_streams@[0].channels is Some {
                v.audio_streams@[0].channels->0
            } else {
                2
            }),
        },
        spec.media_type == MediaType::Video ==> match info {
            MediaInfo::Video(v) => if v.video_streams@.len() > 0 {
                &&& spec.width is None ==> r.width == Some(v.video_streams@[0].width)
                &&& spec.height is None ==> r.height == Some(v.video_streams@[0].height)
                &&& spec.frame_rate is None ==> opt_text(r.frame_rate) == opt_text(
                    v.video_streams@[0].frame_rate,
                )
            } else {
                r.width == spec.width && r.height == spec.height && opt_text(r.frame_rate)
                    == opt_text(spec.frame_rate)
            },
            MediaInfo::Audio(_) => r.width == spec.width && r.height == spec.height && opt_text(
                r.frame_rate,
            ) == opt_text(spec.frame_rate),
        },
        spec.media_type == MediaType::Audio ==> {
            &&& r.width == spec.width
            &&& r.height == spec.height
            &&& opt_text(r.frame_rate) == opt_text(spec.frame_rate)
        },
{
}

/// Everything else that a request says goes through as it is, each under its own
/// name, and nothing is added.
pub proof fn law_requests_go_through(info: MediaInfo, spec: TranscodeSpec, r: EncodeParams)
    requires
        call_ensures(resolve_params, (&info, &spec), r),
    ensures
        r.media_type == spec.media_type,
        r.container@ == spec.container@,
        r.extension@ == spec.extension@,
        r.cbr == spec.cbr,
        r.audio_codec@ == spec.audio_codec@,
        r.audio_bitrate_kbps == spec.audio_bitrate_kbps,
        r.preserve_artwork == spec.preserve_artwork,
        opt_text(r.video_codec) == opt_text(spec.video_codec),
        r.video_bitrate_kbps == spec.video_bitrate_kbps,
        opt_text(r.pixel_format) == opt_text(spec.pixel_format),
        opt_text(r.video_filter) == opt_text(spec.video_filter),
        opt_text(r.video_profile) == opt_text(spec.video_profile),
        opt_text(r.video_level) == opt_text(spec.video_level),
        opt_text(r.poster_artwork_path) == opt_text(spec.poster_artwork_path),
        opt_text(r.hwaccel) == opt_text(spec.hwaccel),
        opt_text(r.movflags) == opt_text(spec.movflags),
        r.audio_block_size == spec.audio_block_size,
        r.aac_priming == spec.aac_priming,
        r.extra@.len() == 0,
{
}

/// A source is trimmed only on its way out of an m4a container as sound, and to
/// the number of samples that its tag gives where the tag gives padding at the
/// end as well.
pub proof fn law_trimmed_sources_leave_m4a(
    info: MediaInfo,
    spec: TranscodeSpec,
    r: EncodeParams,
)
    requires
        call_ensures(resolve_params, (&info, &spec), r),
    ensures
        r.gapless_trim is Some ==> {
            &&& spec.media_type == MediaType::Audio
            &&& lower(spec.container@) != "m4a"@
            &&& info matches MediaInfo::Audio(a) && lower(a.container@) == "m4a"@ && lookup(
                a.tags@,
                "com.apple.itunes:itunsmpb"@,
            ) is Some
        },
        info matches MediaInfo::Audio(a) ==> lookup(a.tags@, "com.apple.itunes:itunsmpb"@) matches Some(
            tag,
        ) ==> smpb_of(words(tag)) matches Some(s) ==> spec.media_type == MediaType::Audio && lower(
            a.container@,
        ) == "m4a"@ && lower(spec.container@) != "m4a"@ ==> {
            &&& s.trailing_padding == 0 || s.total_pcm_samples is None ==> r.gapless_trim is None
            &&& s.total_pcm_samples matches Some(n) ==> s.trailing_padding > 0
                ==> r.gapless_trim == Some(GaplessTrim { output_frames: n })
        },
{
}

/// A request is met without an encode only by sound for sound. An audiobook
/// request is met exactly by AAC-LC without priming at the requested rate and
/// channels in a fitting container; any other exactly by the requested codec in
/// the requested container.
pub proof fn law_satisfied_requests_ask_for_what_is_there(
    info: MediaInfo,
    spec: TranscodeSpec,
    r: bool,
)
    requires
        call_ensures(already_satisfied, (&info, &spec), r),
    ensures
        r ==> info is Audio && spec.media_type == MediaType::Audio,
        info matches MediaInfo::Audio(a) ==> spec.media_type == MediaType::Audio ==> {
            let unprimed = wants_zero_priming(
                true,
                spec.audio_codec@,
                spec.container@,
                spec.extension@,
                spec.aac_priming,
            );
            &&& !unprimed ==> (r <==> a.is_in(spec.audio_codec@, spec.container@))
            &&& unprimed && r ==> {
                &&& lower(a.codec@) == "aac"@
                &&& a.profile matches Some(p) && p@ == "LC"@
                &&& a.priming_samples == Some(0u64)
                &&& spec.sample_rate_hz matches Some(n) ==> a.sample_rate_hz == Some(n)
                &&& spec.channels matches Some(n) ==> a.channels == Some(n)
                &&& containers_agree(a.container@, spec.container@, spec.extension@)
            }
            &&& a.profile matches Some(p) ==> unprimed && p@ == "LC"@ && lower(a.codec@) == "aac"@
                && a.priming_samples == Some(0u64) && (spec.sample_rate_hz is None
                || spec.sample_rate_hz == a.sample_rate_hz) && (spec.channels is None
                || spec.channels == a.channels) && containers_agree(
                a.container@,
                spec.container@,
                spec.extension@,
            ) ==> r
        },
{
}

/// A plan has one job for each input that is not met already, in the order of the
/// inputs, and counts the others: each job is about its own input, writes where
/// the caller says or below the output directory, and has no adapter yet.
pub proof fn law_plans_hold_the_inputs_in_order(
    inputs: &[ProbedInput],
    spec: TranscodeSpec,
    place: OutputPlace,
    no_skip: bool,
    plan: TranscodePlan,
    k: int,
)
    requires
        call_ensures(
            build_plan,
            (inputs, &spec, &place, no_skip),
            Ok::<TranscodePlan, ProtectedSource>(plan),
        ),
    ensures
        ({
            let kept = inputs@.filter(|x: ProbedInput| no_skip || !satisfies(x.info, spec));
            &&& plan.jobs@.len() == kept.len()
            &&& plan.jobs@.len() + plan.skipped_count == inputs@.len()
            &&& 0 <= k < kept.len() ==> {
                let job = plan.jobs@[k];
                &&& job.source_path@ == kept[k].name@
                &&& job.fingerprint == kept[k].fingerprint
                &&& job.assigned_adapter is None
                &&& is_resolved(job.params, kept[k].info, spec)
                &&& place.file matches Some(f) ==> job.output_path@ == path_text(f@, place.sep)
                &&& place.file is None ==> job.output_path@ == path_text(
                    output_of(
                        kept[k].path@,
                        opt_path(place.source_root),
                        place.dir@,
                        spec.extension@,
                    ),
                    place.sep,
                )
            }
        }),
{
    lemma_kept_inputs(inputs@, spec, no_skip);
    let kept = inputs_to_encode(inputs@, spec, no_skip);
    if 0 <= k < kept.len() {
        assert(is_job_of(plan.jobs@[k], kept[k], spec, place));
    }
}

proof fn lemma_kept_inputs(inputs: Seq<ProbedInput>, spec: TranscodeSpec, no_skip: bool)
    ensures
        inputs_to_encode(inputs, spec, no_skip) == inputs.filter(
            |x: ProbedInput| no_skip || !satisfies(x.info, spec),
        ),
    decreases inputs.len(),
{
    reveal(Seq::filter);
    if inputs.len() > 0 {
        lemma_kept_inputs(inputs.drop_last(), spec, no_skip);
    }
}

/// A batch is refused exactly where an audiobook is asked for and some input is a
/// protected audiobook by its extension; the refusal names the first of them.
pub proof fn law_protected_inputs_are_refused(
    inputs: &[ProbedInput],
    spec: TranscodeSpec,
    place: OutputPlace,
    no_skip: bool,
    r: Result<TranscodePlan, ProtectedSource>,
)
    requires
        call_ensures(build_plan, (inputs, &spec, &place, no_skip), r),
    ensures
        !asks_unprimed(spec) ==> r is Ok,
        asks_unprimed(spec) ==> {
            &&& r is Err <==> exists|i: int|
                0 <= i < inputs@.len() && (path_extension((#[trigger] inputs@[i]).path@) matches Some(
                    e,
                ) && is_protected_extension(e))
            &&& r matches Err(e) ==> exists|i: int|
                {
                    &&& 0 <= i < inputs@.len()
                    &&& e.path@ == (#[trigger] inputs@[i]).name@
                    &&& path_extension(inputs@[i].path@) matches Some(x) && is_protected_extension(
                        x,
                    )
                    &&& forall|j: int|
                        0 <= j < i ==> !(path_extension((#[trigger] inputs@[j]).path@) matches Some(
                            y,
                        ) && is_protected_extension(y))
                }
        },
{
    if asks_unprimed(spec) {
        assert(r is Err <==> exists|i: int|
            0 <= i < inputs@.len() && is_refused(#[trigger] inputs@[i], spec));
        if r is Err {
            let i = choose|i: int|
                {
                    &&& 0 <= i < inputs@.len()
                    &&& is_refused(#[trigger] inputs@[i], spec)
                    &&& forall|j: int| 0 <= j < i ==> !is_refused(#[trigger] inputs@[j], spec)
                    &&& r->Err_0.path@ == inputs@[i].name@
                };
            assert(r->Err_0.path@ == inputs@[i].name@);
        } else {
            assert forall|i: int| 0 <= i < inputs@.len() implies !(path_extension(
                (#[trigger] inputs@[i]).path@,
            ) matches Some(e) && is_protected_extension(e)) by {
                assert(!is_refused(inputs@[i], spec));
            }
        }
    }
}

/// Freezing a plan and reading its jobs back gives the same jobs: a node stands
/// at the place of its job, and takes its source, its output, its adapter, its
/// fingerprint and its parameters.
pub proof fn law_nodes_give_their_jobs_back(
    plan: TranscodePlan,
    nodes: Vec<ExecutionNode>,
    frozen: &[ExecutionNode],
    jobs: Vec<PlannedJob>,
    i: int,
)
    requires
        call_ensures(plan_to_nodes, (&plan,), nodes),
        call_ensures(jobs_of_nodes, (frozen,), jobs),
        frozen@ == nodes@,
        0 <= i < plan.jobs@.len(),
    ensures
        nodes@.len() == plan.jobs@.len(),
        jobs@.len() == plan.jobs@.len(),
        nodes@[i].sequence == i,
        nodes@[i].input_path@ == plan.jobs@[i].source_path@,
        nodes@[i].output_path@ == plan.jobs@[i].output_path@,
        nodes@[i].input == plan.jobs@[i].fingerprint,
        Some(nodes@[i].adapter@) == opt_text(plan.jobs@[i].assigned_adapter),
        plan.jobs@[i].params.agrees(nodes@[i].params),
        jobs@[i].source_path@ == plan.jobs@[i].source_path@,
        jobs@[i].output_path@ == plan.jobs@[i].output_path@,
        jobs@[i].fingerprint == plan.jobs@[i].fingerprint,
        opt_text(jobs@[i].assigned_adapter) == opt_text(plan.jobs@[i].assigned_adapter),
        plan.jobs@[i].params.agrees(jobs@[i].params),
{
    assert(is_node_of(nodes@[i], plan.jobs@[i], i));
    assert(is_job_again(jobs@[i], nodes@[i]));
}

/// Without a source root an output is named like its input, in the output
/// directory itself; so is that of an input outside the root whose path does not
/// begin below anything. A relative input outside the root keeps its whole path.
pub proof fn law_outputs_are_named_like_their_inputs(
    input: MediaPath,
    root: Option<MediaPath>,
    dir: MediaPath,
    extension: &str,
    r: MediaPath,
    name: Seq<char>,
)
    requires
        call_ensures(resolve_output_path, (&input, &root, &dir, extension), r),
        input@.len() > 0,
        input@.last() == PartText::Name(name),
    ensures
        root is None ==> r@ == dir@.push(PartText::Name(renamed(name, extension@))),
        root matches Some(base) ==> !path_starts_with(input@, base@) && (input@[0] is Root
            || input@[0] is Prefix) ==> r@ == dir@.push(PartText::Name(renamed(name, extension@))),
        root matches Some(base) ==> !path_starts_with(input@, base@) && (input@[0] is Name
            || input@[0] is Up) ==> r@ == dir@ + input@.drop_last().push(
            PartText::Name(renamed(name, extension@)),
        ),
{
    let one = seq![PartText::Name(name)];
    let p = dir@ + one;
    assert(p.last() == PartText::Name(name));
    assert(p.drop_last() =~= dir@);
    let q = dir@ + input@;
    assert(q.last() == PartText::Name(name));
    assert(q.drop_last().push(PartText::Name(renamed(name, extension@))) =~= dir@
        + input@.drop_last().push(PartText::Name(renamed(name, extension@))));
}

/// A plan is refused in words that name the file.
pub proof fn law_refusals_name_the_file(
    a: ProtectedSource,
    b: OverwrittenSource,
    ra: String,
    rb: String,
)
    requires
        call_ensures(ProtectedSource::message, (&a,), ra),
        call_ensures(OverwrittenSource::message, (&b,), rb),
    ensures
        ra@ == "protected audiobook refused: "@ + a.path@,
        rb@ == "refusing to write over a source file: "@ + b.path@,
{
}

/// A plan is kept back exactly where some output is a source, by the path of a job
/// or by the place it resolves to, and the first such output is named.
pub proof fn law_overwriting_plans_are_kept_back(
    jobs: &[PlannedJob],
    outputs: &[String],
    sources: &[String],
    r: Result<(), OverwrittenSource>,
    i: int,
)
    requires
        outputs@.len() == jobs@.len(),
        call_ensures(check_sources_kept, (jobs, outputs, sources), r),
        0 <= i < jobs@.len(),
    ensures
        (exists|j: int|
            0 <= j < jobs@.len() && (#[trigger] jobs@[j]).source_path@ == jobs@[i].output_path@)
            ==> r is Err,
        (exists|k: int| 0 <= k < sources@.len() && (#[trigger] sources@[k])@ == outputs@[i]@)
            ==> r is Err,
        r matches Err(e) ==> exists|k: int|
            0 <= k < jobs@.len() && e.path@ == (#[trigger] jobs@[k]).output_path@,
{
    if r is Ok {
        assert(keeps_sources(jobs@, outputs@, sources@));
        assert(!overwrites(jobs@, i, outputs@, sources@));
    } else {
        let k = choose|k: int|
            {
                &&& 0 <= k < jobs@.len()
                &&& #[trigger] overwrites(jobs@, k, outputs@, sources@)
                &&& forall|j: int|
                    0 <= j < k ==> !(#[trigger] overwrites(jobs@, j, outputs@, sources@))
                &&& r->Err_0.path@ == jobs@[k].output_path@
            };
        assert(r->Err_0.path@ == jobs@[k].output_path@);
    }
}

} // verus!
