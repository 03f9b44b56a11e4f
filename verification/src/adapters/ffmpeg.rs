//! The FFmpeg adapter: command lines for `ffmpeg`, run as an external program.

use crate::adapters::{
    can_be_run, codec_refused, codec_refused_text, flag, flag_if, group_absent_words,
    group_command_lines, has_sole_flag, has_word, is_record_of, lemma_appended, lemma_sole_flag,
    lemma_word_at, probe_output, push_flag, push_flag_if, step_texts, ArtifactInfo, EncoderAdapter,
    Refusal, Scratch, Stage, Step, StepText,
};
use crate::binaries::{find_ffmpeg, located, HostTools};
use crate::error::AdapterError;
use crate::graph::{EncodeParams, ExecutionNode, GaplessTrim, MediaType};
use crate::mp4_aac::{
    artifact_fault, check_audiobook_artifact, is_zero_priming_aac_m4b_target, wants_zero_priming,
    ArtifactFault, AudiobookFacts,
};
use crate::probe::{audiobook_facts, facts_of, MediaInfo};
use crate::text::{
    chars_of, decimal, decimal_text, lemma_decimal_digits, lines, lists, literal_texts, lower,
    opt_text, push_text, same_text, split_lines, split_words, texts, words,
};
use vstd::prelude::*;
use vstd::string::*;

verus! {

/// The `ffmpeg` program that is used.
#[derive(Debug)]
pub struct FfmpegAdapter {
    pub binary: String,
    /// Whether the program lists the optional `libxvid` encoder.
    pub has_libxvid: bool,
}

// ---- codecs ---------------------------------------------------------------

/// The name that `ffmpeg` has for the encoder of a codec.
pub open spec fn ffmpeg_encoder(codec: Seq<char>) -> Option<Seq<char>> {
    if codec == "mp3"@ {
        Some("libmp3lame"@)
    } else if codec == "aac"@ {
        Some("aac"@)
    } else if codec == "flac"@ {
        Some("flac"@)
    } else if codec == "vorbis"@ {
        Some("libvorbis"@)
    } else if codec == "opus"@ {
        Some("libopus"@)
    } else if codec == "wma"@ {
        Some("wmav2"@)
    } else if codec == "alac"@ {
        Some("alac"@)
    } else if codec == "pcm_s16le"@ {
        Some("pcm_s16le"@)
    } else if codec == "pcm_s16be"@ {
        Some("pcm_s16be"@)
    } else if codec == "pcm_s24le"@ {
        Some("pcm_s24le"@)
    } else if codec == "pcm_s32le"@ {
        Some("pcm_s32le"@)
    } else if codec == "pcm_f32le"@ {
        Some("pcm_f32le"@)
    } else if codec == "wav"@ {
        Some("pcm_s16le"@)
    } else if codec == "adpcm_ima_amv"@ {
        Some("adpcm_ima_amv"@)
    } else if codec == "h264"@ || codec == "avc"@ || codec == "h264_avc"@ {
        Some("libx264"@)
    } else if codec == "h265"@ || codec == "hevc"@ {
        Some("libx265"@)
    } else if codec == "mpeg4"@ || codec == "mpeg4_simple_profile"@ {
        Some("mpeg4"@)
    } else if codec == "mpeg2"@ {
        Some("mpeg2video"@)
    } else if codec == "xvid"@ {
        Some("libxvid"@)
    } else if codec == "avi_motion_jpeg"@ || codec == "mjpeg"@ {
        Some("mjpeg"@)
    } else if codec == "vp8"@ {
        Some("libvpx"@)
    } else if codec == "vp9"@ {
        Some("libvpx-vp9"@)
    } else if codec == "av1"@ {
        Some("libaom-av1"@)
    } else {
        None
    }
}

/// The `ffmpeg` encoder of a codec; the codec itself where there is none.
pub fn codec_to_ffmpeg(codec: &str) -> (r: Result<&'static str, AdapterError>)
    ensures
        match r {
            Ok(name) => ffmpeg_encoder(codec@) == Some(name@),
            Err(e) => ffmpeg_encoder(codec@) is None && (e matches AdapterError::UnsupportedCodec(c)
                && c@ == codec@),
        },
{
    if same_text(codec, "mp3") {
        Ok("libmp3lame")
    } else if same_text(codec, "aac") {
        Ok("aac")
    } else if same_text(codec, "flac") {
        Ok("flac")
    } else if same_text(codec, "vorbis") {
        Ok("libvorbis")
    } else if same_text(codec, "opus") {
        Ok("libopus")
    } else if same_text(codec, "wma") {
        Ok("wmav2")
    } else if same_text(codec, "alac") {
        Ok("alac")
    } else if same_text(codec, "pcm_s16le") {
        Ok("pcm_s16le")
    } else if same_text(codec, "pcm_s16be") {
        Ok("pcm_s16be")
    } else if same_text(codec, "pcm_s24le") {
        Ok("pcm_s24le")
    } else if same_text(codec, "pcm_s32le") {
        Ok("pcm_s32le")
    } else if same_text(codec, "pcm_f32le") {
        Ok("pcm_f32le")
    } else if same_text(codec, "wav") {
        Ok("pcm_s16le")
    } else if same_text(codec, "adpcm_ima_amv") {
        Ok("adpcm_ima_amv")
    } else if same_text(codec, "h264") || same_text(codec, "avc") || same_text(codec, "h264_avc") {
        Ok("libx264")
    } else if same_text(codec, "h265") || same_text(codec, "hevc") {
        Ok("libx265")
    } else if same_text(codec, "mpeg4") || same_text(codec, "mpeg4_simple_profile") {
        Ok("mpeg4")
    } else if same_text(codec, "mpeg2") {
        Ok("mpeg2video")
    } else if same_text(codec, "xvid") {
        Ok("libxvid")
    } else if same_text(codec, "avi_motion_jpeg") || same_text(codec, "mjpeg") {
        Ok("mjpeg")
    } else if same_text(codec, "vp8") {
        Ok("libvpx")
    } else if same_text(codec, "vp9") {
        Ok("libvpx-vp9")
    } else if same_text(codec, "av1") {
        Ok("libaom-av1")
    } else {
        Err(AdapterError::UnsupportedCodec(codec.to_owned()))
    }
}

/// Whether the second word of a line is `libxvid`.
pub open spec fn lists_libxvid(line: Seq<char>) -> bool {
    words(line).len() > 1 && words(line)[1] == "libxvid"@
}

/// Whether the output of `ffmpeg -encoders` has an entry for `libxvid`. Each
/// entry is a line of flags, name and description.
pub fn encoders_list_has_libxvid(stdout: &str) -> (r: bool)
    ensures
        r == exists|i: int| 0 <= i < lines(stdout@).len() && lists_libxvid(#[trigger] lines(stdout@)[i]),
{
    let ls = split_lines(stdout);
    let mut i: usize = 0;
    while i < ls.len()
        invariant
            i <= ls@.len(),
            texts(ls@) == lines(stdout@),
            forall|j: int| 0 <= j < i ==> !lists_libxvid(#[trigger] lines(stdout@)[j]),
        decreases ls@.len() - i,
    {
        assert(texts(ls@)[i as int] == ls@[i as int]@);
        let cs = chars_of(ls[i].as_str());
        let ws = split_words(cs.as_slice());
        if ws.len() > 1 {
            assert(texts(ws@)[1] == ws@[1]@);
            if same_text(ws[1].as_str(), "libxvid") {
                assert(lists_libxvid(lines(stdout@)[i as int]));
                return true;
            }
        }
        i = i + 1;
    }
    false
}

// ---- arguments ------------------------------------------------------------

/// A bitrate, as `ffmpeg` takes it.
pub open spec fn kbps(n: u32) -> Seq<char> {
    decimal(n as nat).push('k')
}

/// The inputs and the streams that are taken from them.
pub open spec fn stream_args(p: EncodeParams, input: Seq<char>) -> Seq<Seq<char>> {
    seq!["-y"@] + flag_if("-hwaccel"@, opt_text(p.hwaccel)) + flag("-i"@, input)
        + match p.media_type {
        MediaType::Video => flag("-map"@, "0:v:0"@) + flag("-map"@, "0:a:0?"@) + (
        match p.poster_artwork_path {
            Some(poster) => flag("-i"@, poster@) + flag("-map"@, "1:v:0"@),
            None => Seq::empty(),
        }) + seq!["-sn"@, "-dn"@, "-map_chapters"@, "-1"@],
        MediaType::Audio => flag("-map"@, "0:a"@) + (if p.preserve_artwork && p.audio_codec@
            != "wma"@ {
            flag("-map"@, "0:v?"@) + flag("-c:v"@, "copy"@) + flag(
                "-disposition:v:0"@,
                "attached_pic"@,
            )
        } else {
            seq!["-vn"@, "-sn"@, "-dn"@]
        }),
    }
}

/// Tags: all of them, in the version that old players read.
pub open spec fn tag_args(p: EncodeParams) -> Seq<Seq<char>> {
    flag("-map_metadata"@, "0"@) + (if p.audio_codec@ == "mp3"@ {
        flag("-id3v2_version"@, "3"@)
    } else {
        Seq::empty()
    })
}

/// How a video stream is scaled: by the filter that is given, else to the size
/// that is given.
pub open spec fn scaling(p: EncodeParams) -> Option<Seq<char>> {
    if p.video_filter is Some {
        opt_text(p.video_filter)
    } else if p.width is Some && p.height is Some {
        Some(
            "scale="@ + decimal(p.width->0 as nat) + ":"@ + decimal(p.height->0 as nat),
        )
    } else {
        None
    }
}

/// The encoding of the video stream.
pub open spec fn video_args(p: EncodeParams) -> Seq<Seq<char>> {
    match p.media_type {
        MediaType::Audio => Seq::empty(),
        MediaType::Video => (match p.video_codec {
            Some(c) => flag_if("-c:v:0"@, ffmpeg_encoder(c@)),
            None => Seq::empty(),
        }) + video_options(p),
    }
}

/// The options of the video stream beside its codec.
pub open spec fn video_options(p: EncodeParams) -> Seq<Seq<char>> {
    (match p.video_bitrate_kbps {
        Some(n) => flag("-b:v:0"@, kbps(n)),
        None => Seq::empty(),
    }) + flag_if("-filter:v:0"@, scaling(p)) + flag_if("-r:v:0"@, opt_text(p.frame_rate))
        + flag_if("-pix_fmt:v:0"@, opt_text(p.pixel_format)) + flag_if(
        "-profile:v:0"@,
        opt_text(p.video_profile),
    ) + flag_if("-level:v:0"@, opt_text(p.video_level))
}

/// What holds a codec to a constant bitrate.
pub open spec fn constant_bitrate_args(codec: Seq<char>, n: u32) -> Seq<Seq<char>> {
    if codec == "mp3"@ {
        flag("-reservoir"@, "0"@)
    } else if codec == "vorbis"@ {
        flag("-minrate"@, kbps(n)) + flag("-maxrate"@, kbps(n))
    } else if codec == "opus"@ {
        flag("-vbr"@, "off"@)
    } else {
        Seq::empty()
    }
}

/// The filter that ends a source behind its last valid sample.
pub open spec fn trim_args(trim: Option<GaplessTrim>) -> Seq<Seq<char>> {
    match trim {
        Some(t) => flag(
            "-af"@,
            "atrim=end_sample="@ + decimal(t.output_frames as nat) + ",asetpts=PTS-STARTPTS"@,
        ),
        None => Seq::empty(),
    }
}

/// The encoding of the audio stream.
pub open spec fn audio_args(p: EncodeParams) -> Seq<Seq<char>> {
    flag_if("-codec:a"@, ffmpeg_encoder(p.audio_codec@)) + (match p.audio_bitrate_kbps {
        Some(n) => flag("-b:a"@, kbps(n)) + (if p.cbr {
            constant_bitrate_args(p.audio_codec@, n)
        } else {
            Seq::empty()
        }),
        None => Seq::empty(),
    }) + flag("-ar"@, decimal(p.sample_rate_hz as nat)) + flag("-ac"@, decimal(p.channels as nat))
        + (match p.audio_block_size {
        Some(n) => flag("-block_size"@, decimal(n as nat)),
        None => Seq::empty(),
    }) + trim_args(p.gapless_trim)
}

/// Further options: each key with a dash, its value unless that is empty.
pub open spec fn extra_args(extra: Seq<(Seq<char>, Seq<char>)>) -> Seq<Seq<char>>
    decreases extra.len(),
{
    if extra.len() == 0 {
        Seq::empty()
    } else {
        let (k, v) = extra.last();
        let front = extra_args(extra.drop_last()).push("-"@ + k);
        if v.len() == 0 {
            front
        } else {
            front.push(v)
        }
    }
}

/// The muxer of a video output and its poster.
pub open spec fn muxer_args(p: EncodeParams) -> Seq<Seq<char>> {
    match p.media_type {
        MediaType::Audio => Seq::empty(),
        MediaType::Video => flag("-f"@, p.container@) + flag_if("-movflags"@, opt_text(p.movflags))
            + (if p.poster_artwork_path is Some {
            flag("-c:v:1"@, "copy"@) + flag("-disposition:v:1"@, "attached_pic"@)
        } else {
            Seq::empty()
        }),
    }
}

/// The whole command line of an encode in one run.
pub open spec fn encode_args(node: ExecutionNode) -> Seq<Seq<char>> {
    let p = node.params;
    (stream_args(p, node.input_path@) + tag_args(p) + video_args(p) + audio_args(p) + extra_args(
        p.extra@,
    ) + muxer_args(p)).push(node.output_path@)
}

/// The codec for which `ffmpeg` has no encoder, the video codec before the audio
/// codec.
pub open spec fn refused_codec(p: EncodeParams) -> Option<Seq<char>> {
    if p.media_type == MediaType::Video && (p.video_codec matches Some(c) && ffmpeg_encoder(c@) is None) {
        opt_text(p.video_codec)
    } else if ffmpeg_encoder(p.audio_codec@) is None {
        Some(p.audio_codec@)
    } else {
        None
    }
}

fn kbps_text(n: u32) -> (r: String)
    ensures
        r@ == kbps(n),
{
    let mut s = decimal_text(n as u64);
    s.push('k');
    s
}

fn push_stream_args(args: &mut Vec<String>, p: &EncodeParams, input: &str)
    requires
        old(args)@.len() == 0,
    ensures
        texts(final(args)@) == stream_args(*p, input@),
{
    push_text(args, "-y");
    push_flag_if(args, "-hwaccel", &p.hwaccel);
    push_flag(args, "-i", input);
    match p.media_type {
        MediaType::Video => {
            push_flag(args, "-map", "0:v:0");
            push_flag(args, "-map", "0:a:0?");
            if let Some(poster) = &p.poster_artwork_path {
                push_flag(args, "-i", poster.as_str());
                push_flag(args, "-map", "1:v:0");
            }
            push_text(args, "-sn");
            push_text(args, "-dn");
            push_text(args, "-map_chapters");
            push_text(args, "-1");
        },
        MediaType::Audio => {
            push_flag(args, "-map", "0:a");
            if p.preserve_artwork && !same_text(p.audio_codec.as_str(), "wma") {
                push_flag(args, "-map", "0:v?");
                push_flag(args, "-c:v", "copy");
                push_flag(args, "-disposition:v:0", "attached_pic");
            } else {
                push_text(args, "-vn");
                push_text(args, "-sn");
                push_text(args, "-dn");
            }
        },
    }
    assert(texts(args@) =~= stream_args(*p, input@));
}

fn push_tag_args(args: &mut Vec<String>, p: &EncodeParams)
    ensures
        texts(final(args)@) == texts(old(args)@) + tag_args(*p),
{
    push_flag(args, "-map_metadata", "0");
    if same_text(p.audio_codec.as_str(), "mp3") {
        push_flag(args, "-id3v2_version", "3");
    }
    assert(texts(args@) =~= texts(old(args)@) + tag_args(*p));
}

fn scaling_text(p: &EncodeParams) -> (r: Option<String>)
    ensures
        opt_text(r) == scaling(*p),
{
    if let Some(f) = &p.video_filter {
        return Some(f.clone());
    }
    if let Some(w) = p.width {
        if let Some(h) = p.height {
            let mut s = "scale=".to_owned();
            s.append(decimal_text(w as u64).as_str());
            s.append(":");
            s.append(decimal_text(h as u64).as_str());
            return Some(s);
        }
    }
    None
}

fn push_video_options(args: &mut Vec<String>, p: &EncodeParams)
    ensures
        texts(final(args)@) == texts(old(args)@) + video_options(*p),
{
    let ghost start = texts(args@);
    let ghost mut done: Seq<Seq<char>> = Seq::empty();
    if let Some(n) = p.video_bitrate_kbps {
        push_flag(args, "-b:v:0", kbps_text(n).as_str());
        proof {
            done = flag("-b:v:0"@, kbps(n));
        }
    }
    assert(texts(args@) =~= start + done);
    push_flag_if(args, "-filter:v:0", &scaling_text(p));
    proof {
        lemma_appended(start, done, flag_if("-filter:v:0"@, scaling(*p)));
        done = done + flag_if("-filter:v:0"@, scaling(*p));
    }
    push_flag_if(args, "-r:v:0", &p.frame_rate);
    proof {
        lemma_appended(start, done, flag_if("-r:v:0"@, opt_text(p.frame_rate)));
        done = done + flag_if("-r:v:0"@, opt_text(p.frame_rate));
    }
    push_flag_if(args, "-pix_fmt:v:0", &p.pixel_format);
    proof {
        lemma_appended(start, done, flag_if("-pix_fmt:v:0"@, opt_text(p.pixel_format)));
        done = done + flag_if("-pix_fmt:v:0"@, opt_text(p.pixel_format));
    }
    push_flag_if(args, "-profile:v:0", &p.video_profile);
    proof {
        lemma_appended(start, done, flag_if("-profile:v:0"@, opt_text(p.video_profile)));
        done = done + flag_if("-profile:v:0"@, opt_text(p.video_profile));
    }
    push_flag_if(args, "-level:v:0", &p.video_level);
    proof {
        lemma_appended(start, done, flag_if("-level:v:0"@, opt_text(p.video_level)));
    }
}

fn push_video_args(args: &mut Vec<String>, p: &EncodeParams) -> (r: Result<(), AdapterError>)
    ensures
        match r {
            Ok(_) => {
                &&& texts(final(args)@) == texts(old(args)@) + video_args(*p)
                &&& p.media_type == MediaType::Video && p.video_codec is Some ==> ffmpeg_encoder(
                    p.video_codec->0@,
                ) is Some
            },
            Err(e) => {
                &&& p.media_type == MediaType::Video
                &&& p.video_codec is Some
                &&& ffmpeg_encoder(p.video_codec->0@) is None
                &&& e matches AdapterError::UnsupportedCodec(c)
                &&& c@ == p.video_codec->0@
            },
        },
{
    match p.media_type {
        MediaType::Audio => {
            assert(texts(args@) =~= texts(old(args)@) + video_args(*p));
            Ok(())
        },
        MediaType::Video => {
            if let Some(c) = &p.video_codec {
                match codec_to_ffmpeg(c.as_str()) {
                    Ok(name) => push_flag(args, "-c:v:0", name),
                    Err(e) => {
                        return Err(e);
                    },
                }
            }
            push_video_options(args, p);
            assert(texts(args@) =~= texts(old(args)@) + video_args(*p));
            Ok(())
        },
    }
}

fn push_constant_bitrate_args(args: &mut Vec<String>, codec: &str, n: u32)
    ensures
        texts(final(args)@) == texts(old(args)@) + constant_bitrate_args(codec@, n),
{
    if same_text(codec, "mp3") {
        push_flag(args, "-reservoir", "0");
    } else if same_text(codec, "vorbis") {
        push_flag(args, "-minrate", kbps_text(n).as_str());
        push_flag(args, "-maxrate", kbps_text(n).as_str());
    } else if same_text(codec, "opus") {
        push_flag(args, "-vbr", "off");
    }
    assert(texts(args@) =~= texts(old(args)@) + constant_bitrate_args(codec@, n));
}

fn push_trim_args(args: &mut Vec<String>, trim: Option<GaplessTrim>)
    ensures
        texts(final(args)@) == texts(old(args)@) + trim_args(trim),
{
    if let Some(t) = trim {
        let mut filter = "atrim=end_sample=".to_owned();
        filter.append(decimal_text(t.output_frames).as_str());
        filter.append(",asetpts=PTS-STARTPTS");
        push_flag(args, "-af", filter.as_str());
    }
    assert(texts(args@) =~= texts(old(args)@) + trim_args(trim));
}

fn push_audio_args(args: &mut Vec<String>, p: &EncodeParams) -> (r: Result<(), AdapterError>)
    ensures
        match r {
            Ok(_) => {
                &&& texts(final(args)@) == texts(old(args)@) + audio_args(*p)
                &&& ffmpeg_encoder(p.audio_codec@) is Some
            },
            Err(e) => {
                &&& ffmpeg_encoder(p.audio_codec@) is None
                &&& e matches AdapterError::UnsupportedCodec(c)
                &&& c@ == p.audio_codec@
            },
        },
{
    match codec_to_ffmpeg(p.audio_codec.as_str()) {
        Ok(name) => push_flag(args, "-codec:a", name),
        Err(e) => {
            return Err(e);
        },
    }
    if let Some(n) = p.audio_bitrate_kbps {
        push_flag(args, "-b:a", kbps_text(n).as_str());
        if p.cbr {
            push_constant_bitrate_args(args, p.audio_codec.as_str(), n);
        }
    }
    push_flag(args, "-ar", decimal_text(p.sample_rate_hz as u64).as_str());
    push_flag(args, "-ac", decimal_text(p.channels as u64).as_str());
    if let Some(n) = p.audio_block_size {
        push_flag(args, "-block_size", decimal_text(n as u64).as_str());
    }
    push_trim_args(args, p.gapless_trim);
    assert(texts(args@) =~= texts(old(args)@) + audio_args(*p));
    Ok(())
}

fn push_extra_args(args: &mut Vec<String>, p: &EncodeParams)
    ensures
        texts(final(args)@) == texts(old(args)@) + extra_args(p.extra@),
{
    let entries = &p.extra.entries;
    let mut i: usize = 0;
    let ghost all = p.extra@;
    assert(texts(args@) =~= texts(old(args)@) + extra_args(all.take(0)));
    while i < entries.len()
        invariant
            i <= entries@.len(),
            *entries == p.extra.entries,
            all == p.extra@,
            texts(args@) == texts(old(args)@) + extra_args(all.take(i as int)),
        decreases entries@.len() - i,
    {
        let e = &entries[i];
        let mut name = "-".to_owned();
        name.append(e.key.as_str());
        push_text(args, name.as_str());
        let value = chars_of(e.value.as_str());
        if value.len() > 0 {
            push_text(args, e.value.as_str());
        }
        i = i + 1;
        proof {
            let now = all.take(i as int);
            assert(now.drop_last() =~= all.take(i - 1));
            assert(now.last() == (e.key@, e.value@));
            assert(texts(args@) =~= texts(old(args)@) + extra_args(now));
        }
    }
    assert(all.take(all.len() as int) =~= all);
}

fn push_muxer_args(args: &mut Vec<String>, p: &EncodeParams)
    ensures
        texts(final(args)@) == texts(old(args)@) + muxer_args(*p),
{
    match p.media_type {
        MediaType::Audio => {},
        MediaType::Video => {
            push_flag(args, "-f", p.container.as_str());
            push_flag_if(args, "-movflags", &p.movflags);
            if p.poster_artwork_path.is_some() {
                push_flag(args, "-c:v:1", "copy");
                push_flag(args, "-disposition:v:1", "attached_pic");
            }
        },
    }
    assert(texts(args@) =~= texts(old(args)@) + muxer_args(*p));
}

impl FfmpegAdapter {
    /// The adapter of the `ffmpeg` that the machine has. `encoders` is what that
    /// program lists under `-encoders`; nothing, where it could not be asked.
    pub fn detect(host: &HostTools, encoders: &str) -> (r: Option<FfmpegAdapter>)
        ensures
            match r {
                Some(a) => {
                    &&& Some(a.binary@) == located(host.ffmpeg)
                    &&& a.has_libxvid == exists|i: int|
                        0 <= i < lines(encoders@).len() && lists_libxvid(
                            #[trigger] lines(encoders@)[i],
                        )
                },
                None => located(host.ffmpeg) is None,
            },
    {
        match find_ffmpeg(host) {
            Some(binary) => Some(
                FfmpegAdapter { binary, has_libxvid: encoders_list_has_libxvid(encoders) },
            ),
            None => None,
        }
    }

    /// Whether a codec is one that the adapter lists and the installed program
    /// cannot make.
    pub open spec fn lacks(&self, codec: Seq<char>) -> bool {
        self.codecs().contains(codec) && !self.produces(codec)
    }

    fn lacks_codec(&self, codec: &str) -> (r: bool)
        ensures
            r == self.lacks(codec@),
    {
        lists(&self.supported_output_codecs(), codec) && !self.is_codec_available(codec)
    }

    /// The command line that encodes a node in one run.
    pub fn build_args(&self, node: &ExecutionNode) -> (r: Result<Vec<String>, AdapterError>)
        ensures
            match r {
                Ok(args) => refused_codec(node.params) is None && texts(args@) == encode_args(
                    *node,
                ),
                Err(e) => e matches AdapterError::UnsupportedCodec(c) && refused_codec(node.params)
                    == Some(c@),
            },
    {
        let p = &node.params;
        let mut args: Vec<String> = Vec::new();
        push_stream_args(&mut args, p, node.input_path.as_str());
        push_tag_args(&mut args, p);
        match push_video_args(&mut args, p) {
            Ok(_) => {},
            Err(e) => {
                return Err(e);
            },
        }
        match push_audio_args(&mut args, p) {
            Ok(_) => {},
            Err(e) => {
                return Err(e);
            },
        }
        push_extra_args(&mut args, p);
        push_muxer_args(&mut args, p);
        push_text(&mut args, node.output_path.as_str());
        Ok(args)
    }
}

/// The command line that copies the embedded picture of a file out of it.
pub fn artwork_args(input: &str, output: &str) -> (r: Vec<String>)
    ensures
        texts(r@) == seq!["-y"@, "-i"@, input@, "-an"@, "-vcodec"@, "copy"@, output@],
{
    let mut args: Vec<String> = Vec::new();
    push_text(&mut args, "-y");
    push_flag(&mut args, "-i", input);
    push_text(&mut args, "-an");
    push_flag(&mut args, "-vcodec", "copy");
    push_text(&mut args, output);
    assert(texts(args@) =~= seq!["-y"@, "-i"@, input@, "-an"@, "-vcodec"@, "copy"@, output@]);
    args
}

// ---- audiobooks without priming -------------------------------------------

/// Whether a node asks for an AAC audiobook without encoder priming.
pub open spec fn is_unprimed_target(p: EncodeParams) -> bool {
    wants_zero_priming(
        p.media_type == MediaType::Audio,
        p.audio_codec@,
        p.container@,
        p.extension@,
        p.aac_priming,
    )
}

fn unprimed_target(p: &EncodeParams) -> (r: bool)
    ensures
        r == is_unprimed_target(*p),
{
    is_zero_priming_aac_m4b_target(
        p.media_type == MediaType::Audio,
        p.audio_codec.as_str(),
        p.container.as_str(),
        p.extension.as_str(),
        p.aac_priming,
    )
}

/// The command line that encodes the audio of a node to an ADTS stream, with the
/// native AAC-LC encoder and nothing beside the audio.
pub open spec fn adts_args(node: ExecutionNode, adts: Seq<char>) -> Seq<Seq<char>> {
    let p = node.params;
    seq!["-y"@] + flag("-i"@, node.input_path@) + flag("-map"@, "0:a:0"@) + seq![
        "-vn"@,
        "-sn"@,
        "-dn"@,
    ] + flag("-map_chapters"@, "-1"@) + flag("-c:a"@, "aac"@) + flag("-profile:a"@, "aac_low"@) + (
    match p.audio_bitrate_kbps {
        Some(n) => flag("-b:a"@, kbps(n)),
        None => Seq::empty(),
    }) + flag("-ar"@, decimal(p.sample_rate_hz as nat)) + flag("-ac"@, decimal(p.channels as nat))
        + flag("-aac_pns"@, "0"@) + flag("-aac_is"@, "0"@) + flag("-aac_tns"@, "0"@) + flag(
        "-aac_ms"@,
        "0"@,
    ) + trim_args(p.gapless_trim) + flag("-f"@, "adts"@) + seq![adts]
}

/// The command line that moves an ADTS stream, as it is, into an ipod container.
pub open spec fn remux_args(node: ExecutionNode, adts: Seq<char>) -> Seq<Seq<char>> {
    seq!["-y"@] + flag("-i"@, adts) + flag("-c:a"@, "copy"@) + flag("-f"@, "ipod"@) + flag_if(
        "-movflags"@,
        opt_text(node.params.movflags),
    ) + seq![node.output_path@]
}

fn build_adts_args(node: &ExecutionNode, adts: &str) -> (r: Vec<String>)
    ensures
        texts(r@) == adts_args(*node, adts@),
{
    let p = &node.params;
    let mut args: Vec<String> = Vec::new();
    push_text(&mut args, "-y");
    push_flag(&mut args, "-i", node.input_path.as_str());
    push_flag(&mut args, "-map", "0:a:0");
    push_text(&mut args, "-vn");
    push_text(&mut args, "-sn");
    push_text(&mut args, "-dn");
    push_flag(&mut args, "-map_chapters", "-1");
    push_flag(&mut args, "-c:a", "aac");
    push_flag(&mut args, "-profile:a", "aac_low");
    if let Some(n) = p.audio_bitrate_kbps {
        push_flag(&mut args, "-b:a", kbps_text(n).as_str());
    }
    push_flag(&mut args, "-ar", decimal_text(p.sample_rate_hz as u64).as_str());
    push_flag(&mut args, "-ac", decimal_text(p.channels as u64).as_str());
    push_flag(&mut args, "-aac_pns", "0");
    push_flag(&mut args, "-aac_is", "0");
    push_flag(&mut args, "-aac_tns", "0");
    push_flag(&mut args, "-aac_ms", "0");
    push_trim_args(&mut args, p.gapless_trim);
    push_flag(&mut args, "-f", "adts");
    push_text(&mut args, adts);
    assert(texts(args@) =~= adts_args(*node, adts@));
    args
}

fn build_remux_args(node: &ExecutionNode, adts: &str) -> (r: Vec<String>)
    ensures
        texts(r@) == remux_args(*node, adts@),
{
    let mut args: Vec<String> = Vec::new();
    push_text(&mut args, "-y");
    push_flag(&mut args, "-i", adts);
    push_flag(&mut args, "-c:a", "copy");
    push_flag(&mut args, "-f", "ipod");
    push_flag_if(&mut args, "-movflags", &node.params.movflags);
    push_text(&mut args, node.output_path.as_str());
    assert(texts(args@) =~= remux_args(*node, adts@));
    args
}

/// The steps to an audiobook without priming: encode to ADTS, drop the frame
/// that holds the encoder delay, remux.
pub open spec fn unprimed_steps(
    binary: Seq<char>,
    node: ExecutionNode,
    scratch: Scratch,
) -> Seq<StepText> {
    let adts = scratch.path_of("encoded.aac"@);
    let stripped = scratch.path_of("stripped.aac"@);
    seq![
        StepText::Run {
            program: binary,
            args: adts_args(node, adts),
            stage: Stage::Encode,
            subject: node.input_path@,
        },
        StepText::DropFirstFrame { source: adts, target: stripped, subject: node.input_path@ },
        StepText::Run {
            program: binary,
            args: remux_args(node, stripped),
            stage: Stage::Encode,
            subject: node.input_path@,
        },
    ]
}

impl EncoderAdapter for FfmpegAdapter {
    open spec fn codecs(&self) -> Seq<Seq<char>> {
        seq![
            "mp3"@,
            "aac"@,
            "flac"@,
            "vorbis"@,
            "opus"@,
            "wma"@,
            "alac"@,
            "pcm_s16le"@,
            "pcm_s24le"@,
            "pcm_s32le"@,
            "pcm_f32le"@,
            "wav"@,
            "adpcm_ima_amv"@,
            "h264"@,
            "avc"@,
            "h264_avc"@,
            "h265"@,
            "hevc"@,
            "mpeg4"@,
            "mpeg4_simple_profile"@,
            "mpeg2"@,
            "xvid"@,
            "avi_motion_jpeg"@,
            "mjpeg"@,
            "vp8"@,
            "vp9"@,
            "av1"@,
        ]
    }

    open spec fn produces(&self, codec: Seq<char>) -> bool {
        if codec == "xvid"@ {
            self.has_libxvid
        } else {
            self.codecs().contains(codec)
        }
    }

    open spec fn usable(&self, binary_present: bool) -> bool {
        binary_present
    }

    open spec fn planned(&self, node: ExecutionNode, scratch: Scratch) -> Result<
        Seq<StepText>,
        Refusal,
    > {
        if is_unprimed_target(node.params) {
            Ok(unprimed_steps(self.binary@, node, scratch))
        } else {
            match refused_codec(node.params) {
                Some(c) => Err(Refusal::UnsupportedCodec(c)),
                None => Ok(
                    seq![
                        StepText::Run {
                            program: self.binary@,
                            args: encode_args(node),
                            stage: Stage::Encode,
                            subject: node.input_path@,
                        },
                    ],
                ),
            }
        }
    }

    open spec fn obstacle(&self, p: EncodeParams) -> Option<Seq<char>> {
        if is_unprimed_target(p) {
            None
        } else if refused_codec(p) is Some {
            Some(codec_refused(refused_codec(p)->0))
        } else if p.media_type == MediaType::Video && (p.video_codec matches Some(c) && self.lacks(
            c@,
        )) {
            Some(codec_refused(p.video_codec->0@))
        } else if self.lacks(p.audio_codec@) {
            Some(codec_refused(p.audio_codec@))
        } else {
            None
        }
    }

    fn supported_output_codecs(&self) -> (r: Vec<&'static str>) {
        let v: Vec<&'static str> = vec![
            "mp3",
            "aac",
            "flac",
            "vorbis",
            "opus",
            "wma",
            "alac",
            "pcm_s16le",
            "pcm_s24le",
            "pcm_s32le",
            "pcm_f32le",
            "wav",
            "adpcm_ima_amv",
            "h264",
            "avc",
            "h264_avc",
            "h265",
            "hevc",
            "mpeg4",
            "mpeg4_simple_profile",
            "mpeg2",
            "xvid",
            "avi_motion_jpeg",
            "mjpeg",
            "vp8",
            "vp9",
            "av1",
        ];
        assert(literal_texts(v@) =~= self.codecs());
        v
    }

    fn is_available(&self, binary_present: bool) -> (r: bool) {
        binary_present
    }

    fn is_codec_available(&self, codec: &str) -> (r: bool) {
        if same_text(codec, "xvid") {
            return self.has_libxvid;
        }
        lists(&self.supported_output_codecs(), codec)
    }

    fn find_obstacle(&self, params: &EncodeParams) -> (r: Option<String>) {
        if unprimed_target(params) {
            return None;
        }
        let mut picture: Option<&String> = None;
        if let MediaType::Video = params.media_type {
            picture = params.video_codec.as_ref();
        }
        if let Some(c) = picture {
            if codec_to_ffmpeg(c.as_str()).is_err() {
                return Some(codec_refused_text(c.as_str()));
            }
        }
        let sound = params.audio_codec.as_str();
        if codec_to_ffmpeg(sound).is_err() {
            return Some(codec_refused_text(sound));
        }
        if let Some(c) = picture {
            if self.lacks_codec(c.as_str()) {
                return Some(codec_refused_text(c.as_str()));
            }
        }
        if self.lacks_codec(sound) {
            return Some(codec_refused_text(sound));
        }
        None
    }

    fn encode(&self, node: &ExecutionNode, scratch: &Scratch) -> (r: Result<
        Vec<Step>,
        AdapterError,
    >) {
        let mut steps: Vec<Step> = Vec::new();
        if unprimed_target(&node.params) {
            let adts = scratch.file("encoded.aac");
            let stripped = scratch.file("stripped.aac");
            steps.push(
                Step::Run {
                    program: self.binary.clone(),
                    args: build_adts_args(node, adts.as_str()),
                    stage: Stage::Encode,
                    subject: node.input_path.clone(),
                },
            );
            let remux = build_remux_args(node, stripped.as_str());
            steps.push(
                Step::DropFirstFrame {
                    source: adts,
                    target: stripped,
                    subject: node.input_path.clone(),
                },
            );
            steps.push(
                Step::Run {
                    program: self.binary.clone(),
                    args: remux,
                    stage: Stage::Encode,
                    subject: node.input_path.clone(),
                },
            );
            assert(step_texts(steps@) =~= unprimed_steps(self.binary@, *node, *scratch));
            return Ok(steps);
        }
        match self.build_args(node) {
            Ok(args) => {
                steps.push(
                    Step::Run {
                        program: self.binary.clone(),
                        args,
                        stage: Stage::Encode,
                        subject: node.input_path.clone(),
                    },
                );
                assert(step_texts(steps@) =~= self.planned(*node, *scratch)->Ok_0);
                Ok(steps)
            },
            Err(e) => Err(e),
        }
    }
}

/// What an encode came to, once its output was looked at. An audiobook without
/// priming is held to its request; where its facts could not be read it failed.
pub fn accept_output(node: &ExecutionNode, facts: Option<&AudiobookFacts>) -> (r: Result<
    (),
    AdapterError,
>)
    ensures
        r is Ok <==> (is_unprimed_target(node.params) ==> facts is Some && artifact_fault(
            *facts->0,
            node.params.sample_rate_hz,
            node.params.channels,
        ) is None),
        r matches Err(e) ==> (e matches AdapterError::EncodeFailed { path, stderr } && path@
            == node.output_path@ && stderr@ == (match facts {
            Some(f) => artifact_fault(
                *f,
                node.params.sample_rate_hz,
                node.params.channels,
            )->0.text(),
            None => "output could not be probed"@,
        })),
{
    if !unprimed_target(&node.params) {
        return Ok(());
    }
    match facts {
        Some(f) => match check_audiobook_artifact(
            f,
            node.params.sample_rate_hz,
            node.params.channels,
        ) {
            Ok(_) => Ok(()),
            Err(fault) => Err(
                AdapterError::EncodeFailed {
                    path: node.output_path.clone(),
                    stderr: fault.message().to_owned(),
                },
            ),
        },
        None => Err(
            AdapterError::EncodeFailed {
                path: node.output_path.clone(),
                stderr: "output could not be probed".to_owned(),
            },
        ),
    }
}

/// Why the output of an encode is not what its node asked for, if it is not: an
/// audiobook without priming has to be an audio file without a fault.
pub open spec fn output_fault(p: EncodeParams, probed: Option<&MediaInfo>) -> Option<Seq<char>> {
    if !is_unprimed_target(p) {
        None
    } else {
        match probed {
            Some(MediaInfo::Audio(a)) => match artifact_fault(
                facts_of(*a),
                p.sample_rate_hz,
                p.channels,
            ) {
                Some(fault) => Some(fault.text()),
                None => None,
            },
            _ => Some("output could not be probed"@),
        }
    }
}

/// What an encode came to, by what was found at the path of its output. An empty
/// file is a failed encode, and so is an audiobook without priming that does not
/// hold up; everything else is recorded as it was found.
pub fn finish_encode(
    node: &ExecutionNode,
    extension: Option<String>,
    size_bytes: u64,
    duration_ms: Option<u64>,
    probed: Option<&MediaInfo>,
) -> (r: Result<ArtifactInfo, AdapterError>)
    ensures
        r is Ok <==> size_bytes > 0 && (is_unprimed_target(node.params) ==> (
        probed matches Some(MediaInfo::Audio(a)) && artifact_fault(
            facts_of(*a),
            node.params.sample_rate_hz,
            node.params.channels,
        ) is None)),
        match r {
            Ok(a) => {
                &&& is_record_of(
                    a,
                    node.output_path@,
                    opt_text(extension),
                    size_bytes,
                    duration_ms,
                    probed,
                )
                &&& is_unprimed_target(node.params) ==> a.priming_samples == Some(0u64)
            },
            Err(e) => e matches AdapterError::EncodeFailed { path, stderr } && path@
                == node.output_path@ && stderr@ == (if size_bytes == 0 {
                "output file is empty"@
            } else {
                output_fault(node.params, probed)->0
            }),
        },
{
    let info = match probe_output(
        node.output_path.as_str(),
        extension,
        size_bytes,
        duration_ms,
        probed,
    ) {
        Ok(info) => info,
        Err(e) => {
            return Err(e);
        },
    };
    let judged = match probed {
        Some(MediaInfo::Audio(a)) => accept_output(node, Some(&audiobook_facts(a))),
        _ => accept_output(node, None),
    };
    match judged {
        Ok(_) => Ok(info),
        Err(e) => Err(e),
    }
}

// ---- laws -----------------------------------------------------------------

/// Where nothing stands in its way, an encode can be planned and run to its end.
pub proof fn law_no_obstacle_means_a_plan(
    adapter: FfmpegAdapter,
    node: ExecutionNode,
    scratch: Scratch,
)
    requires
        adapter.obstacle(node.params) is None,
    ensures
        can_be_run(adapter.planned(node, scratch)),
{
}

/// An audiobook that asked for no priming is never recorded with any.
pub proof fn law_recorded_audiobooks_are_unprimed(
    node: ExecutionNode,
    extension: Option<String>,
    size_bytes: u64,
    duration_ms: Option<u64>,
    probed: Option<&MediaInfo>,
    r: Result<ArtifactInfo, AdapterError>,
)
    requires
        is_unprimed_target(node.params),
        call_ensures(finish_encode, (&node, extension, size_bytes, duration_ms, probed), r),
        r is Ok,
    ensures
        r->Ok_0.priming_samples == Some(0u64),
        probed matches Some(MediaInfo::Audio(a)) && a.sample_rate_hz == Some(
            node.params.sample_rate_hz,
        ) && a.channels == Some(node.params.channels),
{
}

/// Whether an option stands in a command line with a value.
#[verifier::opaque]
pub open spec fn has_flag(args: Seq<Seq<char>>, name: Seq<char>, value: Seq<char>) -> bool {
    exists|i: int| 0 <= i < args.len() - 1 && #[trigger] args[i] == name && args[i + 1] == value
}

/// Whatever is encoded in one run, the tags of the source are carried over.
pub proof fn law_source_metadata_is_mapped(node: ExecutionNode)
    ensures
        has_flag(encode_args(node), "-map_metadata"@, "0"@),
{
    broadcast use group_command_lines;

}

/// An encode writes the output file of its node and no other: every run names
/// it, or a file of the scratch directory, last.
pub proof fn law_only_the_output_is_written(
    adapter: FfmpegAdapter,
    node: ExecutionNode,
    scratch: Scratch,
    i: int,
)
    requires
        adapter.planned(node, scratch) is Ok,
        0 <= i < adapter.planned(node, scratch)->Ok_0.len(),
    ensures
        match adapter.planned(node, scratch)->Ok_0[i] {
            StepText::Run { args, .. } => args.last() == node.output_path@ || args.last()
                == scratch.path_of("encoded.aac"@),
            StepText::DropFirstFrame { target, .. } => target == scratch.path_of("stripped.aac"@),
            StepText::Unsupported { .. } => false,
        },
{
}

/// The last run of an encode writes the output file.
pub proof fn law_last_run_writes_the_output(
    adapter: FfmpegAdapter,
    node: ExecutionNode,
    scratch: Scratch,
)
    requires
        adapter.planned(node, scratch) is Ok,
    ensures
        adapter.planned(node, scratch)->Ok_0.len() > 0,
        adapter.planned(node, scratch)->Ok_0.last() matches StepText::Run { args, .. }
            && args.last() == node.output_path@,
{
}

/// A codec that the adapter lists has an `ffmpeg` encoder.
pub proof fn law_listed_codecs_have_an_encoder(adapter: FfmpegAdapter, codec: Seq<char>)
    requires
        adapter.codecs().contains(codec),
    ensures
        ffmpeg_encoder(codec) is Some,
{
}

/// An audiobook that an encode was accepted with has no priming.
pub proof fn law_accepted_target_is_unprimed(
    node: ExecutionNode,
    facts: AudiobookFacts,
    r: Result<(), AdapterError>,
)
    requires
        is_unprimed_target(node.params),
        call_ensures(accept_output, (&node, Some(&facts)), r),
        r is Ok,
    ensures
        facts.priming_samples == Some(0u64),
        facts.sample_rate_hz == Some(node.params.sample_rate_hz),
        facts.channels == Some(node.params.channels),
{
}

/// Two arguments where an option is given, none otherwise.
pub open spec fn two_if(given: bool) -> int {
    if given {
        2
    } else {
        0
    }
}

/// The command line of an audio encode reads the source first and the output
/// last, takes the sound of the source and, where it is to be kept, the cover art,
/// and asks for the codec, the bitrate, the sample rate and the channels of the
/// node, each as the node has it.
pub proof fn law_audio_encodes_ask_for_what_the_node_says(
    adapter: FfmpegAdapter,
    node: ExecutionNode,
    r: Result<Vec<String>, AdapterError>,
)
    requires
        node.params.media_type == MediaType::Audio,
        call_ensures(FfmpegAdapter::build_args, (&adapter, &node), r),
        r is Ok,
    ensures
        ({
            let p = node.params;
            let t = texts(r->Ok_0@);
            let keeps_art = p.preserve_artwork && p.audio_codec@ != "wma"@;
            let at: int = if p.hwaccel is Some {
                3
            } else {
                1
            };
            &&& t[0] == "-y"@
            &&& t[at] == "-i"@
            &&& t[at + 1] == node.input_path@
            &&& t.last() == node.output_path@
            &&& p.hwaccel is Some ==> has_flag(t, "-hwaccel"@, p.hwaccel->0@)
            &&& has_flag(t, "-map"@, "0:a"@)
            &&& keeps_art ==> {
                &&& has_flag(t, "-map"@, "0:v?"@)
                &&& has_flag(t, "-c:v"@, "copy"@)
                &&& has_flag(t, "-disposition:v:0"@, "attached_pic"@)
            }
            &&& !keeps_art ==> has_word(t, "-vn"@) && has_word(t, "-sn"@) && has_word(t, "-dn"@)
            &&& has_flag(t, "-map_metadata"@, "0"@)
            &&& p.audio_codec@ == "mp3"@ ==> has_flag(t, "-id3v2_version"@, "3"@)
            &&& ffmpeg_encoder(p.audio_codec@) matches Some(e) && has_flag(t, "-codec:a"@, e)
            &&& has_flag(t, "-ar"@, decimal(p.sample_rate_hz as nat))
            &&& has_flag(t, "-ac"@, decimal(p.channels as nat))
            &&& p.audio_bitrate_kbps matches Some(n) ==> {
                let k = decimal(n as nat).push('k');
                &&& has_flag(t, "-b:a"@, k)
                &&& p.cbr && p.audio_codec@ == "mp3"@ ==> has_flag(t, "-reservoir"@, "0"@)
                &&& p.cbr && p.audio_codec@ == "vorbis"@ ==> has_flag(t, "-minrate"@, k)
                    && has_flag(t, "-maxrate"@, k)
                &&& p.cbr && p.audio_codec@ == "opus"@ ==> has_flag(t, "-vbr"@, "off"@)
            }
            &&& p.audio_block_size matches Some(n) ==> has_flag(
                t,
                "-block_size"@,
                decimal(n as nat),
            )
            &&& p.gapless_trim matches Some(g) ==> has_flag(
                t,
                "-af"@,
                "atrim=end_sample="@ + decimal(g.output_frames as nat) + ",asetpts=PTS-STARTPTS"@,
            )
            &&& p.extra@.len() == 0 ==> t.len() == 14 + two_if(p.hwaccel is Some) + (if keeps_art {
                6int
            } else {
                3
            }) + two_if(p.audio_codec@ == "mp3"@) + two_if(p.audio_bitrate_kbps is Some)
                + two_if(p.audio_block_size is Some) + two_if(p.gapless_trim is Some) + (if p.cbr
                && p.audio_bitrate_kbps is Some {
                if p.audio_codec@ == "vorbis"@ {
                    4int
                } else if p.audio_codec@ == "mp3"@ || p.audio_codec@ == "opus"@ {
                    2
                } else {
                    0
                }
            } else {
                0
            })
        }),
{
    broadcast use group_command_lines;

    lemma_literals_apart();
    let p = node.params;
    let t = texts(r->Ok_0@);
    assert(t == encode_args(node));
    let bare = seq!["-vn"@, "-sn"@, "-dn"@];
    lemma_word_at(bare, 0);
    lemma_word_at(bare, 1);
    lemma_word_at(bare, 2);
}

proof fn lemma_literals_apart()
    ensures
        "mp3"@ != "vorbis"@,
        "mp3"@ != "opus"@,
        "vorbis"@ != "opus"@,
{
    reveal_strlit("mp3");
    reveal_strlit("vorbis");
    reveal_strlit("opus");
    assert("mp3"@.len() == 3 && "opus"@.len() == 4 && "vorbis"@.len() == 6);
}

/// The codec that an encoder of FFmpeg makes, by its common name.
pub open spec fn made_by(encoder: Seq<char>) -> Option<Seq<char>> {
    if encoder == "libmp3lame"@ {
        Some("mp3"@)
    } else if encoder == "aac"@ {
        Some("aac"@)
    } else if encoder == "flac"@ {
        Some("flac"@)
    } else if encoder == "libvorbis"@ {
        Some("vorbis"@)
    } else if encoder == "libopus"@ {
        Some("opus"@)
    } else if encoder == "wmav2"@ {
        Some("wma"@)
    } else if encoder == "alac"@ {
        Some("alac"@)
    } else if encoder == "pcm_s16le"@ {
        Some("pcm_s16le"@)
    } else if encoder == "pcm_s16be"@ {
        Some("pcm_s16be"@)
    } else if encoder == "pcm_s24le"@ {
        Some("pcm_s24le"@)
    } else if encoder == "pcm_s32le"@ {
        Some("pcm_s32le"@)
    } else if encoder == "pcm_f32le"@ {
        Some("pcm_f32le"@)
    } else if encoder == "adpcm_ima_amv"@ {
        Some("adpcm_ima_amv"@)
    } else if encoder == "libx264"@ {
        Some("h264"@)
    } else if encoder == "libx265"@ {
        Some("h265"@)
    } else if encoder == "mpeg4"@ {
        Some("mpeg4"@)
    } else if encoder == "mpeg2video"@ {
        Some("mpeg2"@)
    } else if encoder == "libxvid"@ {
        Some("xvid"@)
    } else if encoder == "mjpeg"@ {
        Some("mjpeg"@)
    } else if encoder == "libvpx"@ {
        Some("vp8"@)
    } else if encoder == "libvpx-vp9"@ {
        Some("vp9"@)
    } else if encoder == "libaom-av1"@ {
        Some("av1"@)
    } else {
        None
    }
}

/// The common name of a codec that goes by more than one.
pub open spec fn common_name(codec: Seq<char>) -> Seq<char> {
    if codec == "wav"@ {
        "pcm_s16le"@
    } else if codec == "avc"@ {
        "h264"@
    } else if codec == "h264_avc"@ {
        "h264"@
    } else if codec == "hevc"@ {
        "h265"@
    } else if codec == "mpeg4_simple_profile"@ {
        "mpeg4"@
    } else if codec == "avi_motion_jpeg"@ {
        "mjpeg"@
    } else {
        codec
    }
}

proof fn lemma_encoders_apart(codec: Seq<char>)
    ensures
        ffmpeg_encoder(codec) matches Some(e) ==> made_by(e) == Some(common_name(codec)),
{
    reveal_strlit("aac");
    reveal_strlit("adpcm_ima_amv");
    reveal_strlit("alac");
    reveal_strlit("av1");
    reveal_strlit("avc");
    reveal_strlit("avi_motion_jpeg");
    reveal_strlit("flac");
    reveal_strlit("h264");
    reveal_strlit("h264_avc");
    reveal_strlit("h265");
    reveal_strlit("hevc");
    reveal_strlit("libaom-av1");
    reveal_strlit("libmp3lame");
    reveal_strlit("libopus");
    reveal_strlit("libvorbis");
    reveal_strlit("libvpx");
    reveal_strlit("libvpx-vp9");
    reveal_strlit("libx264");
    reveal_strlit("libx265");
    reveal_strlit("libxvid");
    reveal_strlit("mjpeg");
    reveal_strlit("mp3");
    reveal_strlit("mpeg2");
    reveal_strlit("mpeg2video");
    reveal_strlit("mpeg4");
    reveal_strlit("mpeg4_simple_profile");
    reveal_strlit("opus");
    reveal_strlit("pcm_f32le");
    reveal_strlit("pcm_s16be");
    reveal_strlit("pcm_s16le");
    reveal_strlit("pcm_s24le");
    reveal_strlit("pcm_s32le");
    reveal_strlit("vorbis");
    reveal_strlit("vp8");
    reveal_strlit("vp9");
    reveal_strlit("wav");
    reveal_strlit("wma");
    reveal_strlit("wmav2");
    reveal_strlit("xvid");
    assert("aac"@.len() == 3);
    assert("adpcm_ima_amv"@.len() == 13);
    assert("alac"@.len() == 4);
    assert("av1"@.len() == 3);
    assert("avc"@.len() == 3);
    assert("avi_motion_jpeg"@.len() == 15);
    assert("flac"@.len() == 4);
    assert("h264"@.len() == 4);
    assert("h264_avc"@.len() == 8);
    assert("h265"@.len() == 4);
    assert("hevc"@.len() == 4);
    assert("libaom-av1"@.len() == 10);
    assert("libmp3lame"@.len() == 10);
    assert("libopus"@.len() == 7);
    assert("libvorbis"@.len() == 9);
    assert("libvpx"@.len() == 6);
    assert("libvpx-vp9"@.len() == 10);
    assert("libx264"@.len() == 7);
    assert("libx265"@.len() == 7);
    assert("libxvid"@.len() == 7);
    assert("mjpeg"@.len() == 5);
    assert("mp3"@.len() == 3);
    assert("mpeg2"@.len() == 5);
    assert("mpeg2video"@.len() == 10);
    assert("mpeg4"@.len() == 5);
    assert("mpeg4_simple_profile"@.len() == 20);
    assert("opus"@.len() == 4);
    assert("pcm_f32le"@.len() == 9);
    assert("pcm_s16be"@.len() == 9);
    assert("pcm_s16le"@.len() == 9);
    assert("pcm_s24le"@.len() == 9);
    assert("pcm_s32le"@.len() == 9);
    assert("vorbis"@.len() == 6);
    assert("vp8"@.len() == 3);
    assert("vp9"@.len() == 3);
    assert("wav"@.len() == 3);
    assert("wma"@.len() == 3);
    assert("wmav2"@.len() == 5);
    assert("xvid"@.len() == 4);
    assert("alac"@[0] != "flac"@[0]);
    assert("pcm_s16le"@[0] != "libvorbis"@[0]);
    assert("pcm_s16be"@[0] != "libvorbis"@[0]);
    assert("pcm_s16be"@[7] != "pcm_s16le"@[7]);
    assert("pcm_s24le"@[0] != "libvorbis"@[0]);
    assert("pcm_s24le"@[5] != "pcm_s16le"@[5]);
    assert("pcm_s24le"@[5] != "pcm_s16be"@[5]);
    assert("pcm_s32le"@[0] != "libvorbis"@[0]);
    assert("pcm_s32le"@[5] != "pcm_s16le"@[5]);
    assert("pcm_s32le"@[5] != "pcm_s16be"@[5]);
    assert("pcm_s32le"@[5] != "pcm_s24le"@[5]);
    assert("pcm_f32le"@[0] != "libvorbis"@[0]);
    assert("pcm_f32le"@[4] != "pcm_s16le"@[4]);
    assert("pcm_f32le"@[4] != "pcm_s16be"@[4]);
    assert("pcm_f32le"@[4] != "pcm_s24le"@[4]);
    assert("pcm_f32le"@[4] != "pcm_s32le"@[4]);
    assert("libx264"@[3] != "libopus"@[3]);
    assert("libx265"@[3] != "libopus"@[3]);
    assert("libx265"@[6] != "libx264"@[6]);
    assert("mpeg4"@[0] != "wmav2"@[0]);
    assert("mpeg2video"@[0] != "libmp3lame"@[0]);
    assert("libxvid"@[3] != "libopus"@[3]);
    assert("libxvid"@[4] != "libx264"@[4]);
    assert("libxvid"@[4] != "libx265"@[4]);
    assert("mjpeg"@[0] != "wmav2"@[0]);
    assert("mjpeg"@[1] != "mpeg4"@[1]);
    assert("libvpx-vp9"@[3] != "libmp3lame"@[3]);
    assert("libvpx-vp9"@[0] != "mpeg2video"@[0]);
    assert("libaom-av1"@[3] != "libmp3lame"@[3]);
    assert("libaom-av1"@[0] != "mpeg2video"@[0]);
    assert("libaom-av1"@[3] != "libvpx-vp9"@[3]);
    assert("aac"@[0] != "mp3"@[0]);
    assert("opus"@[0] != "flac"@[0]);
    assert("wma"@[0] != "mp3"@[0]);
    assert("wma"@[0] != "aac"@[0]);
    assert("alac"@[0] != "flac"@[0]);
    assert("alac"@[0] != "opus"@[0]);
    assert("wav"@[0] != "mp3"@[0]);
    assert("wav"@[0] != "aac"@[0]);
    assert("wav"@[1] != "wma"@[1]);
    assert("pcm_s16be"@[7] != "pcm_s16le"@[7]);
    assert("pcm_s24le"@[5] != "pcm_s16le"@[5]);
    assert("pcm_s24le"@[5] != "pcm_s16be"@[5]);
    assert("pcm_s32le"@[5] != "pcm_s16le"@[5]);
    assert("pcm_s32le"@[5] != "pcm_s16be"@[5]);
    assert("pcm_s32le"@[5] != "pcm_s24le"@[5]);
    assert("pcm_f32le"@[4] != "pcm_s16le"@[4]);
    assert("pcm_f32le"@[4] != "pcm_s16be"@[4]);
    assert("pcm_f32le"@[4] != "pcm_s24le"@[4]);
    assert("pcm_f32le"@[4] != "pcm_s32le"@[4]);
    assert("h264"@[0] != "flac"@[0]);
    assert("h264"@[0] != "opus"@[0]);
    assert("h264"@[0] != "alac"@[0]);
    assert("avc"@[0] != "mp3"@[0]);
    assert("avc"@[1] != "aac"@[1]);
    assert("avc"@[0] != "wma"@[0]);
    assert("avc"@[0] != "wav"@[0]);
    assert("h265"@[0] != "flac"@[0]);
    assert("h265"@[0] != "opus"@[0]);
    assert("h265"@[0] != "alac"@[0]);
    assert("h265"@[3] != "h264"@[3]);
    assert("hevc"@[0] != "flac"@[0]);
    assert("hevc"@[0] != "opus"@[0]);
    assert("hevc"@[0] != "alac"@[0]);
    assert("hevc"@[1] != "h264"@[1]);
    assert("hevc"@[1] != "h265"@[1]);
    assert("mpeg2"@[4] != "mpeg4"@[4]);
    assert("xvid"@[0] != "flac"@[0]);
    assert("xvid"@[0] != "opus"@[0]);
    assert("xvid"@[0] != "alac"@[0]);
    assert("xvid"@[0] != "h264"@[0]);
    assert("xvid"@[0] != "h265"@[0]);
    assert("xvid"@[0] != "hevc"@[0]);
    assert("mjpeg"@[1] != "mpeg4"@[1]);
    assert("mjpeg"@[1] != "mpeg2"@[1]);
    assert("vp8"@[0] != "mp3"@[0]);
    assert("vp8"@[0] != "aac"@[0]);
    assert("vp8"@[0] != "wma"@[0]);
    assert("vp8"@[0] != "wav"@[0]);
    assert("vp8"@[0] != "avc"@[0]);
    assert("vp9"@[0] != "mp3"@[0]);
    assert("vp9"@[0] != "aac"@[0]);
    assert("vp9"@[0] != "wma"@[0]);
    assert("vp9"@[0] != "wav"@[0]);
    assert("vp9"@[0] != "avc"@[0]);
    assert("vp9"@[2] != "vp8"@[2]);
    assert("av1"@[0] != "mp3"@[0]);
    assert("av1"@[1] != "aac"@[1]);
    assert("av1"@[0] != "wma"@[0]);
    assert("av1"@[0] != "wav"@[0]);
    assert("av1"@[2] != "avc"@[2]);
    assert("av1"@[0] != "vp8"@[0]);
    assert("av1"@[0] != "vp9"@[0]);
}

/// The encoder that is named for a codec makes that codec.
pub proof fn law_encoders_make_their_codec(codec: &str, r: Result<&'static str, AdapterError>)
    requires
        call_ensures(codec_to_ffmpeg, (codec,), r),
    ensures
        match r {
            Ok(encoder) => made_by(encoder@) == Some(common_name(codec@)),
            Err(e) => e matches AdapterError::UnsupportedCodec(c) && c@ == codec@,
        },
{
    lemma_encoders_apart(codec@);
}

/// Two codecs have the same encoder only where they are two names of one.
pub proof fn law_encoders_tell_codecs_apart(
    a: &str,
    b: &str,
    ra: Result<&'static str, AdapterError>,
    rb: Result<&'static str, AdapterError>,
)
    requires
        call_ensures(codec_to_ffmpeg, (a,), ra),
        call_ensures(codec_to_ffmpeg, (b,), rb),
        ra is Ok,
        rb is Ok,
    ensures
        ra->Ok_0@ == rb->Ok_0@ ==> common_name(a@) == common_name(b@),
{
    lemma_encoders_apart(a@);
    lemma_encoders_apart(b@);
}

proof fn lemma_adts_options_apart()
    ensures
        "-y"@ != "-ar"@,
        "-i"@ != "-ar"@,
        "-map"@ != "-ar"@,
        "0:a:0"@ != "-ar"@,
        "-vn"@ != "-ar"@,
        "-sn"@ != "-ar"@,
        "-dn"@ != "-ar"@,
        "-map_chapters"@ != "-ar"@,
        "-1"@ != "-ar"@,
        "-c:a"@ != "-ar"@,
        "aac"@ != "-ar"@,
        "-profile:a"@ != "-ar"@,
        "aac_low"@ != "-ar"@,
        "-b:a"@ != "-ar"@,
        "-aac_pns"@ != "-ar"@,
        "0"@ != "-ar"@,
        "-aac_is"@ != "-ar"@,
        "-aac_tns"@ != "-ar"@,
        "-aac_ms"@ != "-ar"@,
        "-af"@ != "-ar"@,
        "-f"@ != "-ar"@,
        "adts"@ != "-ar"@,
        "-ac"@ != "-ar"@,
        "-y"@ != "-ac"@,
        "-i"@ != "-ac"@,
        "-map"@ != "-ac"@,
        "0:a:0"@ != "-ac"@,
        "-vn"@ != "-ac"@,
        "-sn"@ != "-ac"@,
        "-dn"@ != "-ac"@,
        "-map_chapters"@ != "-ac"@,
        "-1"@ != "-ac"@,
        "-c:a"@ != "-ac"@,
        "aac"@ != "-ac"@,
        "-profile:a"@ != "-ac"@,
        "aac_low"@ != "-ac"@,
        "-b:a"@ != "-ac"@,
        "-aac_pns"@ != "-ac"@,
        "0"@ != "-ac"@,
        "-aac_is"@ != "-ac"@,
        "-aac_tns"@ != "-ac"@,
        "-aac_ms"@ != "-ac"@,
        "-af"@ != "-ac"@,
        "-f"@ != "-ac"@,
        "adts"@ != "-ac"@,
        "-ar"@ != "-ac"@,
{
    reveal_strlit("-y");
    reveal_strlit("-i");
    reveal_strlit("-map");
    reveal_strlit("0:a:0");
    reveal_strlit("-vn");
    reveal_strlit("-sn");
    reveal_strlit("-dn");
    reveal_strlit("-map_chapters");
    reveal_strlit("-1");
    reveal_strlit("-c:a");
    reveal_strlit("aac");
    reveal_strlit("-profile:a");
    reveal_strlit("aac_low");
    reveal_strlit("-b:a");
    reveal_strlit("-aac_pns");
    reveal_strlit("0");
    reveal_strlit("-aac_is");
    reveal_strlit("-aac_tns");
    reveal_strlit("-aac_ms");
    reveal_strlit("-af");
    reveal_strlit("-f");
    reveal_strlit("adts");
    reveal_strlit("-ar");
    reveal_strlit("-ac");
    assert("-y"@.len() == 2 && "-ar"@.len() == 3);
    assert("-i"@.len() == 2 && "-ar"@.len() == 3);
    assert("-map"@.len() == 4 && "-ar"@.len() == 3);
    assert("0:a:0"@.len() == 5 && "-ar"@.len() == 3);
    assert("-vn"@[1] != "-ar"@[1]);
    assert("-sn"@[1] != "-ar"@[1]);
    assert("-dn"@[1] != "-ar"@[1]);
    assert("-map_chapters"@.len() == 13 && "-ar"@.len() == 3);
    assert("-1"@.len() == 2 && "-ar"@.len() == 3);
    assert("-c:a"@.len() == 4 && "-ar"@.len() == 3);
    assert("aac"@[0] != "-ar"@[0]);
    assert("-profile:a"@.len() == 10 && "-ar"@.len() == 3);
    assert("aac_low"@.len() == 7 && "-ar"@.len() == 3);
    assert("-b:a"@.len() == 4 && "-ar"@.len() == 3);
    assert("-aac_pns"@.len() == 8 && "-ar"@.len() == 3);
    assert("0"@.len() == 1 && "-ar"@.len() == 3);
    assert("-aac_is"@.len() == 7 && "-ar"@.len() == 3);
    assert("-aac_tns"@.len() == 8 && "-ar"@.len() == 3);
    assert("-aac_ms"@.len() == 7 && "-ar"@.len() == 3);
    assert("-af"@[2] != "-ar"@[2]);
    assert("-f"@.len() == 2 && "-ar"@.len() == 3);
    assert("adts"@.len() == 4 && "-ar"@.len() == 3);
    assert("-ac"@[2] != "-ar"@[2]);
    assert("-y"@.len() == 2 && "-ac"@.len() == 3);
    assert("-i"@.len() == 2 && "-ac"@.len() == 3);
    assert("-map"@.len() == 4 && "-ac"@.len() == 3);
    assert("0:a:0"@.len() == 5 && "-ac"@.len() == 3);
    assert("-vn"@[1] != "-ac"@[1]);
    assert("-sn"@[1] != "-ac"@[1]);
    assert("-dn"@[1] != "-ac"@[1]);
    assert("-map_chapters"@.len() == 13 && "-ac"@.len() == 3);
    assert("-1"@.len() == 2 && "-ac"@.len() == 3);
    assert("-c:a"@.len() == 4 && "-ac"@.len() == 3);
    assert("aac"@[0] != "-ac"@[0]);
    assert("-profile:a"@.len() == 10 && "-ac"@.len() == 3);
    assert("aac_low"@.len() == 7 && "-ac"@.len() == 3);
    assert("-b:a"@.len() == 4 && "-ac"@.len() == 3);
    assert("-aac_pns"@.len() == 8 && "-ac"@.len() == 3);
    assert("0"@.len() == 1 && "-ac"@.len() == 3);
    assert("-aac_is"@.len() == 7 && "-ac"@.len() == 3);
    assert("-aac_tns"@.len() == 8 && "-ac"@.len() == 3);
    assert("-aac_ms"@.len() == 7 && "-ac"@.len() == 3);
    assert("-af"@[2] != "-ac"@[2]);
    assert("-f"@.len() == 2 && "-ac"@.len() == 3);
    assert("adts"@.len() == 4 && "-ac"@.len() == 3);
    assert("-ar"@[2] != "-ac"@[2]);
}

/// A file of the scratch directory is no option.
proof fn lemma_scratch_is_no_option(scratch: Scratch, name: Seq<char>, option: Seq<char>)
    requires
        name.len() >= option.len(),
    ensures
        scratch.path_of(name) != option,
{
    assert(scratch.path_of(name).len() == scratch.dir@.len() + 1 + name.len());
}

/// An audiobook without priming is made in three steps that hand over to one
/// another: the native AAC-LC encoder writes an ADTS stream at the sample rate,
/// the channels and the bitrate of the node, each asked for once; the first frame
/// is dropped from that very stream; and what is left is moved as it is into an
/// ipod container, which is the output. Nothing but the sound goes along.
pub proof fn law_zero_priming_encodes_in_three_steps(
    adapter: FfmpegAdapter,
    node: ExecutionNode,
    scratch: Scratch,
    r: Result<Vec<Step>, AdapterError>,
)
    requires
        call_ensures(FfmpegAdapter::encode, (&adapter, &node, &scratch), r),
        node.params.media_type == MediaType::Audio,
        lower(node.params.audio_codec@) == "aac"@,
        node.params.aac_priming == Some(0u32) || lower(node.params.extension@) == "m4b"@ || lower(
            node.params.container@,
        ) == "m4b"@ || lower(node.params.container@) == "ipod"@,
        node.input_path@ != "-ar"@,
        node.input_path@ != "-ac"@,
    ensures
        r is Ok,
        r->Ok_0@.len() == 3,
        ({
            let p = node.params;
            let first = r->Ok_0@[0]@;
            let second = r->Ok_0@[1]@;
            let third = r->Ok_0@[2]@;
            &&& first matches StepText::Run { program, args, stage, subject } && {
                &&& program == adapter.binary@
                &&& stage == Stage::Encode
                &&& subject == node.input_path@
                &&& args[0] == "-y"@
                &&& args[1] == "-i"@
                &&& args[2] == node.input_path@
                &&& has_flag(args, "-map"@, "0:a:0"@)
                &&& has_word(args, "-vn"@) && has_word(args, "-sn"@) && has_word(args, "-dn"@)
                &&& has_flag(args, "-map_chapters"@, "-1"@)
                &&& has_flag(args, "-c:a"@, "aac"@)
                &&& has_flag(args, "-profile:a"@, "aac_low"@)
                &&& p.audio_bitrate_kbps matches Some(n) ==> has_flag(
                    args,
                    "-b:a"@,
                    decimal(n as nat).push('k'),
                )
                &&& has_sole_flag(args, "-ar"@, decimal(p.sample_rate_hz as nat))
                &&& has_sole_flag(args, "-ac"@, decimal(p.channels as nat))
                &&& has_flag(args, "-aac_pns"@, "0"@) && has_flag(args, "-aac_is"@, "0"@)
                &&& has_flag(args, "-aac_tns"@, "0"@) && has_flag(args, "-aac_ms"@, "0"@)
                &&& p.gapless_trim matches Some(g) ==> has_flag(
                    args,
                    "-af"@,
                    "atrim=end_sample="@ + decimal(g.output_frames as nat)
                        + ",asetpts=PTS-STARTPTS"@,
                )
                &&& has_flag(args, "-f"@, "adts"@)
                &&& args.len() == 29 + (if p.audio_bitrate_kbps is Some {
                    2int
                } else {
                    0
                }) + (if p.gapless_trim is Some {
                    2int
                } else {
                    0
                })
                &&& second matches StepText::DropFirstFrame { source, target, subject: about } && {
                    &&& source == args.last()
                    &&& target != source
                    &&& about == node.input_path@
                    &&& third matches StepText::Run {
                        program: again,
                        args: remux,
                        stage: late,
                        subject: of,
                    } && {
                        &&& again == adapter.binary@
                        &&& late == Stage::Encode
                        &&& of == node.input_path@
                        &&& remux[0] == "-y"@
                        &&& remux[1] == "-i"@
                        &&& remux[2] == target
                        &&& has_flag(remux, "-c:a"@, "copy"@)
                        &&& has_flag(remux, "-f"@, "ipod"@)
                        &&& p.movflags is Some ==> has_flag(remux, "-movflags"@, p.movflags->0@)
                        &&& remux.last() == node.output_path@
                        &&& remux.len() == 8 + (if p.movflags is Some {
                            2int
                        } else {
                            0
                        })
                    }
                }
            }
        }),
{
    broadcast use group_command_lines;

    let p = node.params;
    let adts = scratch.path_of("encoded.aac"@);
    let stripped = scratch.path_of("stripped.aac"@);
    let steps = r->Ok_0@;
    assert(step_texts(steps) == unprimed_steps(adapter.binary@, node, scratch));
    assert(step_texts(steps)[0] == steps[0]@);
    assert(step_texts(steps)[1] == steps[1]@);
    assert(step_texts(steps)[2] == steps[2]@);
    let args = adts_args(node, adts);
    let bare = seq!["-vn"@, "-sn"@, "-dn"@];
    lemma_word_at(bare, 0);
    lemma_word_at(bare, 1);
    lemma_word_at(bare, 2);
    assert(adts != stripped) by {
        reveal_strlit("encoded.aac");
        reveal_strlit("stripped.aac");
        assert("encoded.aac"@.len() == 11 && "stripped.aac"@.len() == 12);
        assert(adts.len() != stripped.len());
    }
    lemma_adts_options_apart();
    lemma_adts_sole(node, scratch);
}

proof fn lemma_adts_sole(node: ExecutionNode, scratch: Scratch)
    requires
        node.input_path@ != "-ar"@,
        node.input_path@ != "-ac"@,
    ensures
        has_sole_flag(
            adts_args(node, scratch.path_of("encoded.aac"@)),
            "-ar"@,
            decimal(node.params.sample_rate_hz as nat),
        ),
        has_sole_flag(
            adts_args(node, scratch.path_of("encoded.aac"@)),
            "-ac"@,
            decimal(node.params.channels as nat),
        ),
{
    broadcast use group_absent_words;

    lemma_adts_options_apart();
    reveal_strlit("-ar");
    reveal_strlit("-ac");
    reveal_strlit("encoded.aac");
    let p = node.params;
    let adts = scratch.path_of("encoded.aac"@);
    lemma_scratch_is_no_option(scratch, "encoded.aac"@, "-ar"@);
    lemma_scratch_is_no_option(scratch, "encoded.aac"@, "-ac"@);
    lemma_decimal_digits(p.sample_rate_hz as nat);
    lemma_decimal_digits(p.channels as nat);
    let rate = decimal(p.sample_rate_hz as nat);
    let channels = decimal(p.channels as nat);
    assert("-ar"@[0] == '-' && "-ac"@[0] == '-');
    assert(rate[0] != '-' && channels[0] != '-');
    let bitrate = match p.audio_bitrate_kbps {
        Some(n) => flag("-b:a"@, kbps(n)),
        None => Seq::empty(),
    };
    if let Some(n) = p.audio_bitrate_kbps {
        lemma_decimal_digits(n as nat);
        assert(kbps(n)[0] == decimal(n as nat)[0]);
        assert(kbps(n)[0] != '-');
    }
    if let Some(g) = p.gapless_trim {
        reveal_strlit("atrim=end_sample=");
        let text = "atrim=end_sample="@ + decimal(g.output_frames as nat)
            + ",asetpts=PTS-STARTPTS"@;
        assert("atrim=end_sample="@.len() == 17);
        assert(text[0] == "atrim=end_sample="@[0]);
        assert(text[0] != '-');
    }
    let bare = seq!["-vn"@, "-sn"@, "-dn"@];
    assert(bare =~= seq!["-vn"@] + seq!["-sn"@] + seq!["-dn"@]);
    let front = seq!["-y"@] + flag("-i"@, node.input_path@) + flag("-map"@, "0:a:0"@) + bare
        + flag("-map_chapters"@, "-1"@) + flag("-c:a"@, "aac"@) + flag("-profile:a"@, "aac_low"@)
        + bitrate;
    let back = flag("-aac_pns"@, "0"@) + flag("-aac_is"@, "0"@) + flag("-aac_tns"@, "0"@) + flag(
        "-aac_ms"@,
        "0"@,
    ) + trim_args(p.gapless_trim) + flag("-f"@, "adts"@) + seq![adts];
    let args = adts_args(node, adts);
    assert(args =~= front + flag("-ar"@, rate) + (flag("-ac"@, channels) + back));
    assert(args =~= front + flag("-ar"@, rate) + flag("-ac"@, channels) + back);
    lemma_sole_flag(front, "-ar"@, rate, flag("-ac"@, channels) + back);
    lemma_sole_flag(front + flag("-ar"@, rate), "-ac"@, channels, back);
}

/// The command line of a video encode takes the first video stream and, where
/// there is one, the first audio stream of the source, and the poster where one is
/// given. It asks for both codecs, both bitrates, the size, the frame rate and
/// every other option of the node under its own name, and for nothing else.
#[verifier::rlimit(60)]
pub proof fn law_video_encodes_ask_for_what_the_node_says(
    adapter: FfmpegAdapter,
    node: ExecutionNode,
    r: Result<Vec<String>, AdapterError>,
)
    requires
        node.params.media_type == MediaType::Video,
        call_ensures(FfmpegAdapter::build_args, (&adapter, &node), r),
        r is Ok,
    ensures
        ({
            let p = node.params;
            let t = texts(r->Ok_0@);
            let at: int = if p.hwaccel is Some {
                3
            } else {
                1
            };
            &&& t[0] == "-y"@
            &&& t[at] == "-i"@
            &&& t[at + 1] == node.input_path@
            &&& t.last() == node.output_path@
            &&& p.hwaccel is Some ==> has_flag(t, "-hwaccel"@, p.hwaccel->0@)
            &&& has_flag(t, "-map"@, "0:v:0"@)
            &&& has_flag(t, "-map"@, "0:a:0?"@)
            &&& p.poster_artwork_path matches Some(poster) ==> {
                &&& has_flag(t, "-i"@, poster@)
                &&& has_flag(t, "-map"@, "1:v:0"@)
                &&& has_flag(t, "-c:v:1"@, "copy"@)
                &&& has_flag(t, "-disposition:v:1"@, "attached_pic"@)
            }
            &&& has_word(t, "-sn"@) && has_word(t, "-dn"@)
            &&& has_flag(t, "-map_chapters"@, "-1"@)
            &&& has_flag(t, "-map_metadata"@, "0"@)
            &&& p.video_codec matches Some(c) ==> (ffmpeg_encoder(c@) matches Some(e) && has_flag(
                t,
                "-c:v:0"@,
                e,
            ))
            &&& p.video_bitrate_kbps matches Some(n) ==> has_flag(
                t,
                "-b:v:0"@,
                decimal(n as nat).push('k'),
            )
            &&& p.video_filter matches Some(f) ==> has_flag(t, "-filter:v:0"@, f@)
            &&& p.width matches Some(w) ==> p.height matches Some(h) ==> p.video_filter is None
                ==> has_flag(
                t,
                "-filter:v:0"@,
                "scale="@ + decimal(w as nat) + ":"@ + decimal(h as nat),
            )
            &&& p.frame_rate matches Some(f) ==> has_flag(t, "-r:v:0"@, f@)
            &&& p.pixel_format matches Some(f) ==> has_flag(t, "-pix_fmt:v:0"@, f@)
            &&& p.video_profile matches Some(f) ==> has_flag(t, "-profile:v:0"@, f@)
            &&& p.video_level matches Some(f) ==> has_flag(t, "-level:v:0"@, f@)
            &&& ffmpeg_encoder(p.audio_codec@) matches Some(e) && has_flag(t, "-codec:a"@, e)
            &&& p.audio_bitrate_kbps matches Some(n) ==> has_flag(
                t,
                "-b:a"@,
                decimal(n as nat).push('k'),
            )
            &&& has_flag(t, "-ar"@, decimal(p.sample_rate_hz as nat))
            &&& has_flag(t, "-ac"@, decimal(p.channels as nat))
            &&& has_flag(t, "-f"@, p.container@)
            &&& p.movflags matches Some(f) ==> has_flag(t, "-movflags"@, f@)
            &&& p.extra@.len() == 0 && !p.cbr ==> t.len() == 22 + two_if(p.hwaccel is Some) + 4
                * two_if(p.poster_artwork_path is Some) + two_if(p.audio_codec@ == "mp3"@)
                + two_if(p.video_codec is Some) + two_if(p.video_bitrate_kbps is Some) + two_if(
                p.video_filter is Some || (p.width is Some && p.height is Some),
            ) + two_if(p.frame_rate is Some) + two_if(p.pixel_format is Some) + two_if(
                p.video_profile is Some,
            ) + two_if(p.video_level is Some) + two_if(p.audio_bitrate_kbps is Some) + two_if(
                p.audio_block_size is Some,
            ) + two_if(p.gapless_trim is Some) + two_if(p.movflags is Some)
        }),
{
    let p = node.params;
    let t = texts(r->Ok_0@);
    assert(t == encode_args(node));
    lemma_video_head(p, node.input_path@);
    lemma_video_middle(p);
    lemma_video_parts(node);
}

proof fn lemma_video_head(p: EncodeParams, input: Seq<char>)
    requires
        p.media_type == MediaType::Video,
    ensures
        ({
            let t = stream_args(p, input);
            let at: int = if p.hwaccel is Some {
                3
            } else {
                1
            };
            &&& t[0] == "-y"@
            &&& t[at] == "-i"@
            &&& t[at + 1] == input
            &&& p.hwaccel is Some ==> has_flag(t, "-hwaccel"@, p.hwaccel->0@)
            &&& has_flag(t, "-map"@, "0:v:0"@)
            &&& has_flag(t, "-map"@, "0:a:0?"@)
            &&& p.poster_artwork_path matches Some(poster) ==> has_flag(t, "-i"@, poster@)
                && has_flag(t, "-map"@, "1:v:0"@)
            &&& has_word(t, "-sn"@) && has_word(t, "-dn"@)
            &&& has_flag(t, "-map_chapters"@, "-1"@)
            &&& t.len() == 11 + two_if(p.hwaccel is Some) + 2 * two_if(
                p.poster_artwork_path is Some,
            )
        }),
{
    broadcast use group_command_lines;

    let tail = seq!["-sn"@, "-dn"@, "-map_chapters"@, "-1"@];
    lemma_word_at(tail, 0);
    lemma_word_at(tail, 1);
    assert(tail =~= seq!["-sn"@, "-dn"@] + flag("-map_chapters"@, "-1"@));
}

proof fn lemma_video_middle(p: EncodeParams)
    requires
        p.media_type == MediaType::Video,
        refused_codec(p) is None,
    ensures
        ({
            let t = video_args(p);
            &&& p.video_codec matches Some(c) ==> (ffmpeg_encoder(c@) matches Some(e) && has_flag(
                t,
                "-c:v:0"@,
                e,
            ))
            &&& p.video_bitrate_kbps matches Some(n) ==> has_flag(
                t,
                "-b:v:0"@,
                decimal(n as nat).push('k'),
            )
            &&& p.video_filter matches Some(f) ==> has_flag(t, "-filter:v:0"@, f@)
            &&& p.width matches Some(w) ==> p.height matches Some(h) ==> p.video_filter is None
                ==> has_flag(
                t,
                "-filter:v:0"@,
                "scale="@ + decimal(w as nat) + ":"@ + decimal(h as nat),
            )
            &&& p.frame_rate matches Some(f) ==> has_flag(t, "-r:v:0"@, f@)
            &&& p.pixel_format matches Some(f) ==> has_flag(t, "-pix_fmt:v:0"@, f@)
            &&& p.video_profile matches Some(f) ==> has_flag(t, "-profile:v:0"@, f@)
            &&& p.video_level matches Some(f) ==> has_flag(t, "-level:v:0"@, f@)
            &&& t.len() == two_if(p.video_codec is Some) + two_if(p.video_bitrate_kbps is Some)
                + two_if(p.video_filter is Some || (p.width is Some && p.height is Some)) + two_if(
                p.frame_rate is Some,
            ) + two_if(p.pixel_format is Some) + two_if(p.video_profile is Some) + two_if(
                p.video_level is Some,
            )
        }),
{
    broadcast use group_command_lines;

}

proof fn lemma_video_parts(node: ExecutionNode)
    requires
        node.params.media_type == MediaType::Video,
        refused_codec(node.params) is None,
    ensures
        ({
            let p = node.params;
            let t = encode_args(node);
            let head = stream_args(p, node.input_path@);
            let middle = video_args(p);
            &&& forall|i: int| 0 <= i < head.len() ==> t[i] == head[i]
            &&& forall|n: Seq<char>, v: Seq<char>| has_flag(head, n, v) ==> #[trigger] has_flag(t, n, v)
            &&& forall|n: Seq<char>, v: Seq<char>|
                has_flag(middle, n, v) ==> #[trigger] has_flag(t, n, v)
            &&& forall|w: Seq<char>| has_word(head, w) ==> #[trigger] has_word(t, w)
            &&& has_flag(t, "-map_metadata"@, "0"@)
            &&& ffmpeg_encoder(p.audio_codec@) matches Some(e) && has_flag(t, "-codec:a"@, e)
            &&& p.audio_bitrate_kbps matches Some(n) ==> has_flag(
                t,
                "-b:a"@,
                decimal(n as nat).push('k'),
            )
            &&& has_flag(t, "-ar"@, decimal(p.sample_rate_hz as nat))
            &&& has_flag(t, "-ac"@, decimal(p.channels as nat))
            &&& has_flag(t, "-f"@, p.container@)
            &&& p.movflags matches Some(f) ==> has_flag(t, "-movflags"@, f@)
            &&& p.poster_artwork_path is Some ==> has_flag(t, "-c:v:1"@, "copy"@) && has_flag(
                t,
                "-disposition:v:1"@,
                "attached_pic"@,
            )
            &&& t.last() == node.output_path@
            &&& p.extra@.len() == 0 && !p.cbr ==> t.len() == head.len() + middle.len() + 11
                + two_if(p.audio_codec@ == "mp3"@) + two_if(p.audio_bitrate_kbps is Some) + two_if(
                p.audio_block_size is Some,
            ) + two_if(p.gapless_trim is Some) + two_if(p.movflags is Some) + 2 * two_if(
                p.poster_artwork_path is Some,
            )
        }),
{
    broadcast use group_command_lines;

    let p = node.params;
    let t = encode_args(node);
    let head = stream_args(p, node.input_path@);
    let middle = video_args(p);
    let a = head + tag_args(p);
    let b = a + middle;
    let c = b + audio_args(p);
    let d = c + extra_args(p.extra@);
    let e = d + muxer_args(p);
    assert(t == e.push(node.output_path@));
    assert forall|n: Seq<char>, v: Seq<char>| has_flag(head, n, v) implies #[trigger] has_flag(
        t,
        n,
        v,
    ) by {
        assert(has_flag(a, n, v));
        assert(has_flag(b, n, v));
        assert(has_flag(c, n, v));
        assert(has_flag(d, n, v));
        assert(has_flag(e, n, v));
    }
    assert forall|n: Seq<char>, v: Seq<char>| has_flag(middle, n, v) implies #[trigger] has_flag(
        t,
        n,
        v,
    ) by {
        assert(has_flag(b, n, v));
        assert(has_flag(c, n, v));
        assert(has_flag(d, n, v));
        assert(has_flag(e, n, v));
    }
    assert forall|w: Seq<char>| has_word(head, w) implies #[trigger] has_word(t, w) by {
        assert(has_word(a, w));
        assert(has_word(b, w));
        assert(has_word(c, w));
        assert(has_word(d, w));
        assert(has_word(e, w));
    }
}

/// Every further option of a node stands in its command line: its key behind a
/// dash, followed by its value where that is not empty.
pub proof fn law_further_options_are_passed_on(
    adapter: FfmpegAdapter,
    node: ExecutionNode,
    r: Result<Vec<String>, AdapterError>,
    i: int,
)
    requires
        call_ensures(FfmpegAdapter::build_args, (&adapter, &node), r),
        r is Ok,
        0 <= i < node.params.extra@.len(),
    ensures
        ({
            let t = texts(r->Ok_0@);
            let (k, v) = node.params.extra@[i];
            &&& v.len() > 0 ==> has_flag(t, seq!['-'] + k, v)
            &&& v.len() == 0 ==> has_word(t, seq!['-'] + k)
        }),
{
    broadcast use group_command_lines;

    reveal_strlit("-");
    let p = node.params;
    assert("-"@ =~= seq!['-']);
    lemma_extra(p.extra@, i);
    assert(texts(r->Ok_0@) == encode_args(node));
}

proof fn lemma_extra(extra: Seq<(Seq<char>, Seq<char>)>, i: int)
    requires
        0 <= i < extra.len(),
    ensures
        ({
            let (k, v) = extra[i];
            &&& v.len() > 0 ==> has_flag(extra_args(extra), "-"@ + k, v)
            &&& v.len() == 0 ==> has_word(extra_args(extra), "-"@ + k)
        }),
    decreases extra.len(),
{
    let (k, v) = extra.last();
    let front = extra_args(extra.drop_last());
    if i == extra.len() - 1 {
        if v.len() > 0 {
            reveal(has_flag);
            let t = extra_args(extra);
            assert(t[front.len() as int] == "-"@ + k && t[front.len() as int + 1] == v);
        } else {
            lemma_word_at(extra_args(extra), front.len() as int);
        }
    } else {
        broadcast use group_command_lines;

        assert(extra.drop_last()[i] == extra[i]);
        lemma_extra(extra.drop_last(), i);
        let (a, b) = extra[i];
        if b.len() > 0 {
            assert(has_flag(front.push("-"@ + k), "-"@ + a, b));
        } else {
            assert(has_word(front.push("-"@ + k), "-"@ + a));
        }
    }
}

/// An encode in one run is refused exactly where one of its codecs has no encoder,
/// the picture's before the sound's.
pub proof fn law_codecs_without_an_encoder_are_refused(
    adapter: FfmpegAdapter,
    node: ExecutionNode,
    sound: &str,
    picture: &str,
    r: Result<Vec<String>, AdapterError>,
    rs: Result<&'static str, AdapterError>,
    rp: Result<&'static str, AdapterError>,
)
    requires
        call_ensures(FfmpegAdapter::build_args, (&adapter, &node), r),
        call_ensures(codec_to_ffmpeg, (sound,), rs),
        call_ensures(codec_to_ffmpeg, (picture,), rp),
        sound@ == node.params.audio_codec@,
        opt_text(node.params.video_codec) == Some(picture@),
    ensures
        node.params.media_type == MediaType::Audio ==> (r is Err <==> rs is Err),
        node.params.media_type == MediaType::Video ==> (r is Err <==> rs is Err || rp is Err),
        r matches Err(e) ==> (e matches AdapterError::UnsupportedCodec(c) && c@ == (if rp is Err
            && node.params.media_type == MediaType::Video {
            picture@
        } else {
            sound@
        })),
{
}

proof fn lemma_codecs_apart(codec: Seq<char>, encoder: Seq<char>)
    requires
        made_by(encoder) == Some(common_name(codec)),
    ensures
        ffmpeg_encoder(codec) == Some(encoder),
{
    reveal_strlit("mp3");
    reveal_strlit("aac");
    reveal_strlit("flac");
    reveal_strlit("vorbis");
    reveal_strlit("opus");
    reveal_strlit("wma");
    reveal_strlit("alac");
    reveal_strlit("pcm_s16le");
    reveal_strlit("pcm_s16be");
    reveal_strlit("pcm_s24le");
    reveal_strlit("pcm_s32le");
    reveal_strlit("pcm_f32le");
    reveal_strlit("wav");
    reveal_strlit("adpcm_ima_amv");
    reveal_strlit("h264");
    reveal_strlit("avc");
    reveal_strlit("h264_avc");
    reveal_strlit("h265");
    reveal_strlit("hevc");
    reveal_strlit("mpeg4");
    reveal_strlit("mpeg4_simple_profile");
    reveal_strlit("mpeg2");
    reveal_strlit("xvid");
    reveal_strlit("avi_motion_jpeg");
    reveal_strlit("mjpeg");
    reveal_strlit("vp8");
    reveal_strlit("vp9");
    reveal_strlit("av1");
    assert("mp3"@.len() == 3);
    assert("aac"@.len() == 3);
    assert("flac"@.len() == 4);
    assert("vorbis"@.len() == 6);
    assert("opus"@.len() == 4);
    assert("wma"@.len() == 3);
    assert("alac"@.len() == 4);
    assert("pcm_s16le"@.len() == 9);
    assert("pcm_s16be"@.len() == 9);
    assert("pcm_s24le"@.len() == 9);
    assert("pcm_s32le"@.len() == 9);
    assert("pcm_f32le"@.len() == 9);
    assert("wav"@.len() == 3);
    assert("adpcm_ima_amv"@.len() == 13);
    assert("h264"@.len() == 4);
    assert("avc"@.len() == 3);
    assert("h264_avc"@.len() == 8);
    assert("h265"@.len() == 4);
    assert("hevc"@.len() == 4);
    assert("mpeg4"@.len() == 5);
    assert("mpeg4_simple_profile"@.len() == 20);
    assert("mpeg2"@.len() == 5);
    assert("xvid"@.len() == 4);
    assert("avi_motion_jpeg"@.len() == 15);
    assert("mjpeg"@.len() == 5);
    assert("vp8"@.len() == 3);
    assert("vp9"@.len() == 3);
    assert("av1"@.len() == 3);
    assert("aac"@[0] != "mp3"@[0]);
    assert("opus"@[0] != "flac"@[0]);
    assert("wma"@[0] != "mp3"@[0]);
    assert("wma"@[0] != "aac"@[0]);
    assert("alac"@[0] != "flac"@[0]);
    assert("alac"@[0] != "opus"@[0]);
    assert("pcm_s16be"@[7] != "pcm_s16le"@[7]);
    assert("pcm_s24le"@[5] != "pcm_s16le"@[5]);
    assert("pcm_s24le"@[5] != "pcm_s16be"@[5]);
    assert("pcm_s32le"@[5] != "pcm_s16le"@[5]);
    assert("pcm_s32le"@[5] != "pcm_s16be"@[5]);
    assert("pcm_s32le"@[5] != "pcm_s24le"@[5]);
    assert("pcm_f32le"@[4] != "pcm_s16le"@[4]);
    assert("pcm_f32le"@[4] != "pcm_s16be"@[4]);
    assert("pcm_f32le"@[4] != "pcm_s24le"@[4]);
    assert("pcm_f32le"@[4] != "pcm_s32le"@[4]);
    assert("wav"@[0] != "mp3"@[0]);
    assert("wav"@[0] != "aac"@[0]);
    assert("wav"@[1] != "wma"@[1]);
    assert("h264"@[0] != "flac"@[0]);
    assert("h264"@[0] != "opus"@[0]);
    assert("h264"@[0] != "alac"@[0]);
    assert("avc"@[0] != "mp3"@[0]);
    assert("avc"@[1] != "aac"@[1]);
    assert("avc"@[0] != "wma"@[0]);
    assert("avc"@[0] != "wav"@[0]);
    assert("h265"@[0] != "flac"@[0]);
    assert("h265"@[0] != "opus"@[0]);
    assert("h265"@[0] != "alac"@[0]);
    assert("h265"@[3] != "h264"@[3]);
    assert("hevc"@[0] != "flac"@[0]);
    assert("hevc"@[0] != "opus"@[0]);
    assert("hevc"@[0] != "alac"@[0]);
    assert("hevc"@[1] != "h264"@[1]);
    assert("hevc"@[1] != "h265"@[1]);
    assert("mpeg2"@[4] != "mpeg4"@[4]);
    assert("xvid"@[0] != "flac"@[0]);
    assert("xvid"@[0] != "opus"@[0]);
    assert("xvid"@[0] != "alac"@[0]);
    assert("xvid"@[0] != "h264"@[0]);
    assert("xvid"@[0] != "h265"@[0]);
    assert("xvid"@[0] != "hevc"@[0]);
    assert("mjpeg"@[1] != "mpeg4"@[1]);
    assert("mjpeg"@[1] != "mpeg2"@[1]);
    assert("vp8"@[0] != "mp3"@[0]);
    assert("vp8"@[0] != "aac"@[0]);
    assert("vp8"@[0] != "wma"@[0]);
    assert("vp8"@[0] != "wav"@[0]);
    assert("vp8"@[0] != "avc"@[0]);
    assert("vp9"@[0] != "mp3"@[0]);
    assert("vp9"@[0] != "aac"@[0]);
    assert("vp9"@[0] != "wma"@[0]);
    assert("vp9"@[0] != "wav"@[0]);
    assert("vp9"@[0] != "avc"@[0]);
    assert("vp9"@[2] != "vp8"@[2]);
    assert("av1"@[0] != "mp3"@[0]);
    assert("av1"@[1] != "aac"@[1]);
    assert("av1"@[0] != "wma"@[0]);
    assert("av1"@[0] != "wav"@[0]);
    assert("av1"@[2] != "avc"@[2]);
    assert("av1"@[0] != "vp8"@[0]);
    assert("av1"@[0] != "vp9"@[0]);
}

/// Every codec that an encoder makes is had from that encoder, and every other
/// name of a codec gives the encoder of the codec.
pub proof fn law_codecs_find_their_encoder(
    codec: &str,
    encoder: Seq<char>,
    r: Result<&'static str, AdapterError>,
)
    requires
        call_ensures(codec_to_ffmpeg, (codec,), r),
        made_by(encoder) == Some(common_name(codec@)),
    ensures
        r matches Ok(name) && name@ == encoder,
{
    lemma_codecs_apart(codec@, encoder);
}

/// The command line that copies a picture out reads the file, leaves the sound
/// behind, and writes the picture as it is.
pub proof fn law_pictures_are_copied_out(input: &str, output: &str, r: Vec<String>)
    requires
        call_ensures(artwork_args, (input, output), r),
    ensures
        r@.len() == 7,
        texts(r@)[0] == "-y"@,
        texts(r@)[1] == "-i"@,
        texts(r@)[2] == input@,
        has_word(texts(r@), "-an"@),
        has_flag(texts(r@), "-vcodec"@, "copy"@),
        texts(r@).last() == output@,
{
    let t = texts(r@);
    lemma_word_at(t, 3);
    reveal(has_flag);
    assert(t[4] == "-vcodec"@ && t[5] == "copy"@);
}

/// Xvid is offered exactly where the program has its encoder; everything else by
/// the list.
pub proof fn law_xvid_needs_its_encoder(adapter: FfmpegAdapter, codec: &str, r: bool)
    requires
        call_ensures(FfmpegAdapter::is_codec_available, (&adapter, codec), r),
    ensures
        codec@ == "xvid"@ ==> r == adapter.has_libxvid,
        r && codec@ != "xvid"@ ==> ffmpeg_encoder(codec@) is Some,
        codec@ != "xvid"@ && codec@ != "pcm_s16be"@ && ffmpeg_encoder(codec@) is Some ==> r,
{
    if r && codec@ != "xvid"@ {
        law_listed_codecs_have_an_encoder(adapter, codec@);
    }
    if codec@ != "xvid"@ && codec@ != "pcm_s16be"@ && ffmpeg_encoder(codec@) is Some {
        let l = adapter.codecs();
        assert(l[0] == "mp3"@ && l[1] == "aac"@ && l[2] == "flac"@ && l[3] == "vorbis"@ && l[4]
            == "opus"@ && l[5] == "wma"@ && l[6] == "alac"@ && l[7] == "pcm_s16le"@ && l[8]
            == "pcm_s24le"@ && l[9] == "pcm_s32le"@ && l[10] == "pcm_f32le"@ && l[11] == "wav"@
            && l[12] == "adpcm_ima_amv"@ && l[13] == "h264"@ && l[14] == "avc"@ && l[15]
            == "h264_avc"@ && l[16] == "h265"@ && l[17] == "hevc"@ && l[18] == "mpeg4"@ && l[19]
            == "mpeg4_simple_profile"@ && l[20] == "mpeg2"@ && l[22] == "avi_motion_jpeg"@ && l[23]
            == "mjpeg"@ && l[24] == "vp8"@ && l[25] == "vp9"@ && l[26] == "av1"@);
    }
}

/// What an encode wrote is recorded unless it is empty; an audiobook without
/// priming is recorded only where it was read as sound and passed the check. A
/// failure names the output.
pub proof fn law_empty_outputs_fail(
    node: ExecutionNode,
    extension: Option<String>,
    size: u64,
    ms: Option<u64>,
    probed: Option<&MediaInfo>,
    r: Result<ArtifactInfo, AdapterError>,
)
    requires
        call_ensures(finish_encode, (&node, extension, size, ms, probed), r),
    ensures
        size == 0 ==> (r matches Err(AdapterError::EncodeFailed { path, stderr }) && path@
            == node.output_path@ && stderr@ == "output file is empty"@),
        size > 0 && !is_unprimed_target(node.params) ==> r is Ok,
        size > 0 && is_unprimed_target(node.params) && !(probed matches Some(MediaInfo::Audio(_)))
            ==> (r matches Err(AdapterError::EncodeFailed { path, stderr }) && path@
            == node.output_path@ && stderr@ == "output could not be probed"@),
        r matches Ok(a) ==> a.size_bytes == size && a.output_path@ == node.output_path@
            && a.duration_ms == (if probed is Some {
            ms
        } else {
            None
        }),
{
}

/// Whatever is not an audiobook without priming is encoded in one run of the
/// program, with the command line of its node; where there is no such command line
/// it is refused for the same codec.
pub proof fn law_other_encodes_are_one_run(
    adapter: FfmpegAdapter,
    node: ExecutionNode,
    scratch: Scratch,
    r: Result<Vec<Step>, AdapterError>,
    line: Result<Vec<String>, AdapterError>,
)
    requires
        call_ensures(FfmpegAdapter::encode, (&adapter, &node, &scratch), r),
        call_ensures(FfmpegAdapter::build_args, (&adapter, &node), line),
        node.params.media_type == MediaType::Video || lower(node.params.audio_codec@) != "aac"@ || (
        node.params.aac_priming != Some(0u32) && lower(node.params.extension@) != "m4b"@ && lower(
            node.params.container@,
        ) != "m4b"@ && lower(node.params.container@) != "ipod"@),
    ensures
        r is Ok <==> line is Ok,
        r matches Ok(steps) ==> {
            &&& steps@.len() == 1
            &&& steps@[0]@ matches StepText::Run { program, args, stage, subject } && program
                == adapter.binary@ && args == texts(line->Ok_0@) && stage == Stage::Encode
                && subject == node.input_path@
        },
        r matches Err(e) ==> (e matches AdapterError::UnsupportedCodec(c) && line->Err_0 matches AdapterError::UnsupportedCodec(
            d,
        ) && c@ == d@),
{
    if r is Ok {
        let steps = r->Ok_0@;
        assert(step_texts(steps) == adapter.planned(node, scratch)->Ok_0);
        assert(step_texts(steps).len() == 1);
        assert(step_texts(steps)[0] == steps[0]@);
    }
}

/// Nothing stands in the way of an audiobook without priming. Otherwise each codec
/// needs an encoder, and Xvid one that the program has; the codec that is told is
/// one that lacks it, the picture's where both do.
pub proof fn law_obstacles_are_codecs(
    adapter: FfmpegAdapter,
    p: EncodeParams,
    r: Option<String>,
)
    requires
        call_ensures(FfmpegAdapter::find_obstacle, (&adapter, &p), r),
    ensures
        ({
            let unprimed = p.media_type == MediaType::Audio && lower(p.audio_codec@) == "aac"@ && (
            p.aac_priming == Some(0u32) || lower(p.extension@) == "m4b"@ || lower(p.container@)
                == "m4b"@ || lower(p.container@) == "ipod"@);
            let picture = p.media_type == MediaType::Video && p.video_codec is Some;
            let sound_ok = ffmpeg_encoder(p.audio_codec@) is Some && (p.audio_codec@ != "xvid"@
                || adapter.has_libxvid);
            let picture_ok = picture ==> ffmpeg_encoder(p.video_codec->0@) is Some && (
            p.video_codec->0@ != "xvid"@ || adapter.has_libxvid);
            &&& r is None <==> unprimed || (sound_ok && picture_ok)
            &&& r matches Some(text) ==> {
                ||| !sound_ok && text@ == "no adapter can encode to codec '"@ + p.audio_codec@
                    + "'"@
                ||| !picture_ok && text@ == "no adapter can encode to codec '"@ + p.video_codec->0@
                    + "'"@
            }
            &&& !unprimed && picture && ffmpeg_encoder(p.video_codec->0@) is None ==> (
            r matches Some(text) && text@ == "no adapter can encode to codec '"@
                + p.video_codec->0@ + "'"@)
        }),
{
    assert(adapter.codecs()[21] == "xvid"@);
}

/// The program has Xvid exactly where the second word of some line of its list
/// says so.
pub proof fn law_xvid_is_found_in_the_list(
    host: HostTools,
    encoders: &str,
    r: Option<FfmpegAdapter>,
    found: Option<String>,
    listed: bool,
    i: int,
)
    requires
        call_ensures(FfmpegAdapter::detect, (&host, encoders), r),
        call_ensures(find_ffmpeg, (&host,), found),
        call_ensures(encoders_list_has_libxvid, (encoders,), listed),
    ensures
        r is Some <==> found is Some,
        r matches Some(a) ==> Some(a.binary@) == opt_text(found) && (listed
            ==> a.has_libxvid),
        r matches Some(a) ==> 0 <= i < lines(encoders@).len() && words(lines(encoders@)[i]).len() >= 2 && words(
            lines(encoders@)[i],
        )[1] == "libxvid"@ ==> a.has_libxvid,
        r matches Some(a) ==> (forall|j: int|
            0 <= j < lines(encoders@).len() ==> words(#[trigger] lines(encoders@)[j]).len() < 2
                || words(lines(encoders@)[j])[1] != "libxvid"@) ==> !listed && !a.has_libxvid,
{
    let there = exists|j: int|
        0 <= j < lines(encoders@).len() && lists_libxvid(#[trigger] lines(encoders@)[j]);
    assert(listed ==> there);
    if r is Some {
        assert(r->0.has_libxvid ==> there);
        assert(there ==> r->0.has_libxvid);
    }
    if 0 <= i < lines(encoders@).len() && words(lines(encoders@)[i]).len() >= 2 && words(
        lines(encoders@)[i],
    )[1] == "libxvid"@ {
        assert(lists_libxvid(lines(encoders@)[i]));
        assert(there);
    }
}

/// An output is taken as it is unless its node is for an audiobook without
/// priming; that one is taken exactly where its facts were read and pass the
/// check, and otherwise fails with what is wrong with it.
pub proof fn law_outputs_are_taken_as_asked(
    node: ExecutionNode,
    facts: AudiobookFacts,
    r: Result<(), AdapterError>,
    unread: Result<(), AdapterError>,
    check: Result<(), ArtifactFault>,
    unprimed: bool,
    codec: &str,
    container: &str,
    extension: &str,
)
    requires
        call_ensures(accept_output, (&node, Some(&facts)), r),
        call_ensures(accept_output, (&node, None::<&AudiobookFacts>), unread),
        call_ensures(
            check_audiobook_artifact,
            (&facts, node.params.sample_rate_hz, node.params.channels),
            check,
        ),
        call_ensures(
            is_zero_priming_aac_m4b_target,
            (
                node.params.media_type == MediaType::Audio,
                codec,
                container,
                extension,
                node.params.aac_priming,
            ),
            unprimed,
        ),
        codec@ == node.params.audio_codec@,
        container@ == node.params.container@,
        extension@ == node.params.extension@,
    ensures
        !unprimed ==> r is Ok && unread is Ok,
        unprimed ==> (r is Ok <==> check is Ok) && unread is Err,
        r matches Err(e) ==> (e matches AdapterError::EncodeFailed { path, stderr } && path@
            == node.output_path@ && stderr@ == check->Err_0.text()),
        unread matches Err(e) ==> (e matches AdapterError::EncodeFailed { path, stderr } && path@
            == node.output_path@ && stderr@ == "output could not be probed"@),
{
}

/// The adapter can be used exactly where its program is there.
pub proof fn law_the_program_makes_the_adapter(adapter: FfmpegAdapter, present: bool, r: bool)
    requires
        call_ensures(FfmpegAdapter::is_available, (&adapter, present), r),
    ensures
        r == present,
{
}

} // verus!
