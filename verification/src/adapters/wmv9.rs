//! The WMV9 adapter. True WMV9 has one encoder, which ships with Windows and is
//! driven through the `bbt-wmv9` helper.
//!
//! An encode is three runs: `ffmpeg` decodes the source to raw NV12 frames of the
//! target size and to an intermediate WAV, and the helper encodes and muxes both.

use crate::adapters::ffmpeg::has_flag;
use crate::adapters::{
    can_be_run, flag, group_command_lines, has_word, lemma_word_itself, program_missing,
    program_missing_text, push_flag, step_texts, EncoderAdapter, Refusal, Scratch, Stage, Step,
    StepText,
};
use crate::binaries::{find_ffmpeg, find_wmv9_helper, located, HostTools};
use crate::error::AdapterError;
use crate::graph::{EncodeParams, ExecutionNode};
use crate::text::{decimal, decimal_text, lists, literal_texts, opt_text, push_text, texts};
use vstd::prelude::*;
use vstd::string::*;

verus! {

/// The programs that the adapter found.
#[derive(Debug)]
pub struct Wmv9Adapter {
    /// The `bbt-wmv9` helper.
    pub helper: String,
    pub ffmpeg: Option<String>,
}

/// What WMV9 needs to be told, and an encode must hence bring.
pub ghost struct Wmv9Request {
    pub width: u32,
    pub height: u32,
    pub fps: Seq<char>,
    pub video_kbps: u32,
    pub audio_kbps: u32,
}

/// The request in a set of parameters, or what is missing from it.
pub open spec fn wmv9_request(p: EncodeParams) -> Result<Wmv9Request, Seq<char>> {
    match (p.width, p.height, p.frame_rate, p.video_bitrate_kbps, p.audio_bitrate_kbps) {
        (Some(width), Some(height), Some(fps), Some(video_kbps), Some(audio_kbps)) => Ok(
            Wmv9Request { width, height, fps: fps@, video_kbps, audio_kbps },
        ),
        (None, _, _, _, _) => Err("wmv9 requires explicit width and height"@),
        (_, None, _, _, _) => Err("wmv9 requires explicit width and height"@),
        (_, _, None, _, _) => Err("wmv9 requires an explicit frame rate"@),
        (_, _, _, None, _) => Err("wmv9 requires an explicit video bitrate"@),
        (_, _, _, _, None) => Err("wmv9 requires an explicit audio bitrate"@),
    }
}

/// The filter that fits a picture into a frame, keeps its aspect ratio and fills
/// the rest with black bars.
pub open spec fn letterbox(w: u32, h: u32) -> Seq<char> {
    "scale=w="@ + decimal(w as nat) + ":h="@ + decimal(h as nat)
        + ":force_original_aspect_ratio=decrease,pad="@ + decimal(w as nat) + ":"@ + decimal(
        h as nat,
    ) + ":(ow-iw)/2:(oh-ih)/2:color=black"@
}

/// The command line that decodes the picture to raw NV12 frames.
pub open spec fn nv12_args(input: Seq<char>, q: Wmv9Request, nv12: Seq<char>) -> Seq<Seq<char>> {
    seq!["-y"@] + flag("-i"@, input) + seq!["-an"@] + flag("-vf"@, letterbox(q.width, q.height))
        + flag("-r"@, q.fps) + flag("-pix_fmt"@, "nv12"@) + flag("-f"@, "rawvideo"@) + seq![nv12]
}

/// The command line that decodes the sound to 16-bit PCM.
pub open spec fn sound_args(
    input: Seq<char>,
    sample_rate: u32,
    channels: u8,
    wav: Seq<char>,
) -> Seq<Seq<char>> {
    seq!["-y"@] + flag("-i"@, input) + seq!["-vn"@] + flag("-ar"@, decimal(sample_rate as nat))
        + flag("-ac"@, decimal(channels as nat)) + flag("-codec:a"@, "pcm_s16le"@) + flag(
        "-f"@,
        "wav"@,
    ) + seq![wav]
}

/// The command line of the helper.
pub open spec fn helper_args(
    q: Wmv9Request,
    nv12: Seq<char>,
    wav: Seq<char>,
    output: Seq<char>,
) -> Seq<Seq<char>> {
    flag("--video"@, nv12) + flag("--width"@, decimal(q.width as nat)) + flag(
        "--height"@,
        decimal(q.height as nat),
    ) + flag("--fps"@, q.fps) + flag("--vbitrate"@, decimal(q.video_kbps as nat)) + flag(
        "--audio"@,
        wav,
    ) + flag("--abitrate"@, decimal(q.audio_kbps as nat)) + flag("--output"@, output)
}

fn letterbox_text(w: u32, h: u32) -> (r: String)
    ensures
        r@ == letterbox(w, h),
{
    let mut s = "scale=w=".to_owned();
    s.append(decimal_text(w as u64).as_str());
    s.append(":h=");
    s.append(decimal_text(h as u64).as_str());
    s.append(":force_original_aspect_ratio=decrease,pad=");
    s.append(decimal_text(w as u64).as_str());
    s.append(":");
    s.append(decimal_text(h as u64).as_str());
    s.append(":(ow-iw)/2:(oh-ih)/2:color=black");
    s
}

fn build_nv12_args(input: &str, w: u32, h: u32, fps: &str, nv12: &str) -> (r: Vec<String>)
    ensures
        forall|q: Wmv9Request|
            q.width == w && q.height == h && q.fps == fps@ ==> texts(r@) == #[trigger] nv12_args(
                input@,
                q,
                nv12@,
            ),
{
    let mut args: Vec<String> = Vec::new();
    push_text(&mut args, "-y");
    push_flag(&mut args, "-i", input);
    push_text(&mut args, "-an");
    push_flag(&mut args, "-vf", letterbox_text(w, h).as_str());
    push_flag(&mut args, "-r", fps);
    push_flag(&mut args, "-pix_fmt", "nv12");
    push_flag(&mut args, "-f", "rawvideo");
    push_text(&mut args, nv12);
    assert(texts(args@) =~= seq!["-y"@] + flag("-i"@, input@) + seq!["-an"@] + flag(
        "-vf"@,
        letterbox(w, h),
    ) + flag("-r"@, fps@) + flag("-pix_fmt"@, "nv12"@) + flag("-f"@, "rawvideo"@) + seq![nv12@]);
    args
}

fn build_sound_args(input: &str, sample_rate: u32, channels: u8, wav: &str) -> (r: Vec<String>)
    ensures
        texts(r@) == sound_args(input@, sample_rate, channels, wav@),
{
    let mut args: Vec<String> = Vec::new();
    push_text(&mut args, "-y");
    push_flag(&mut args, "-i", input);
    push_text(&mut args, "-vn");
    push_flag(&mut args, "-ar", decimal_text(sample_rate as u64).as_str());
    push_flag(&mut args, "-ac", decimal_text(channels as u64).as_str());
    push_flag(&mut args, "-codec:a", "pcm_s16le");
    push_flag(&mut args, "-f", "wav");
    push_text(&mut args, wav);
    assert(texts(args@) =~= sound_args(input@, sample_rate, channels, wav@));
    args
}

impl Wmv9Adapter {
    /// The adapter, where the machine has the helper.
    pub fn detect(host: &HostTools) -> (r: Option<Wmv9Adapter>)
        ensures
            match r {
                Some(a) => Some(a.helper@) == located(host.wmv9) && opt_text(a.ffmpeg) == located(
                    host.ffmpeg,
                ),
                None => located(host.wmv9) is None,
            },
    {
        match find_wmv9_helper(host) {
            Some(helper) => Some(Wmv9Adapter { helper, ffmpeg: find_ffmpeg(host) }),
            None => None,
        }
    }
}

/// The three runs of an encode.
pub open spec fn wmv9_steps(
    helper: Seq<char>,
    ffmpeg: Seq<char>,
    node: ExecutionNode,
    q: Wmv9Request,
    scratch: Scratch,
) -> Seq<StepText> {
    let nv12 = scratch.path_of("video.nv12"@);
    let wav = scratch.path_of("audio.wav"@);
    seq![
        StepText::Run {
            program: ffmpeg,
            args: nv12_args(node.input_path@, q, nv12),
            stage: Stage::Decode,
            subject: node.input_path@,
        },
        StepText::Run {
            program: ffmpeg,
            args: sound_args(
                node.input_path@,
                node.params.sample_rate_hz,
                node.params.channels,
                wav,
            ),
            stage: Stage::Decode,
            subject: node.input_path@,
        },
        StepText::Run {
            program: helper,
            args: helper_args(q, nv12, wav, node.output_path@),
            stage: Stage::Encode,
            subject: nv12,
        },
    ]
}

fn missing(what: &str) -> (r: AdapterError)
    ensures
        r matches AdapterError::UnsupportedCodec(s) && s@ == what@,
{
    AdapterError::UnsupportedCodec(what.to_owned())
}

impl EncoderAdapter for Wmv9Adapter {
    open spec fn codecs(&self) -> Seq<Seq<char>> {
        seq!["wmv9"@]
    }

    open spec fn produces(&self, codec: Seq<char>) -> bool {
        self.codecs().contains(codec)
    }

    open spec fn usable(&self, binary_present: bool) -> bool {
        binary_present && self.ffmpeg is Some
    }

    open spec fn planned(&self, node: ExecutionNode, scratch: Scratch) -> Result<
        Seq<StepText>,
        Refusal,
    > {
        match self.ffmpeg {
            None => Err(Refusal::BinaryNotFound("ffmpeg"@)),
            Some(ffmpeg) => match wmv9_request(node.params) {
                Err(what) => Err(Refusal::UnsupportedCodec(what)),
                Ok(q) => Ok(wmv9_steps(self.helper@, ffmpeg@, node, q, scratch)),
            },
        }
    }

    open spec fn obstacle(&self, p: EncodeParams) -> Option<Seq<char>> {
        if self.ffmpeg is None {
            Some(program_missing("ffmpeg"@))
        } else {
            match wmv9_request(p) {
                Err(what) => Some(what),
                Ok(_) => None,
            }
        }
    }

    fn supported_output_codecs(&self) -> (r: Vec<&'static str>) {
        let v: Vec<&'static str> = vec!["wmv9"];
        assert(literal_texts(v@) =~= self.codecs());
        v
    }

    fn is_available(&self, binary_present: bool) -> (r: bool) {
        binary_present && self.ffmpeg.is_some()
    }

    fn is_codec_available(&self, codec: &str) -> (r: bool) {
        lists(&self.supported_output_codecs(), codec)
    }

    fn find_obstacle(&self, params: &EncodeParams) -> (r: Option<String>) {
        if self.ffmpeg.is_none() {
            Some(program_missing_text("ffmpeg"))
        } else if params.width.is_none() || params.height.is_none() {
            Some("wmv9 requires explicit width and height".to_owned())
        } else if params.frame_rate.is_none() {
            Some("wmv9 requires an explicit frame rate".to_owned())
        } else if params.video_bitrate_kbps.is_none() {
            Some("wmv9 requires an explicit video bitrate".to_owned())
        } else if params.audio_bitrate_kbps.is_none() {
            Some("wmv9 requires an explicit audio bitrate".to_owned())
        } else {
            None
        }
    }

    fn encode(&self, node: &ExecutionNode, scratch: &Scratch) -> (r: Result<
        Vec<Step>,
        AdapterError,
    >) {
        let ffmpeg = match &self.ffmpeg {
            Some(p) => p,
            None => {
                return Err(AdapterError::BinaryNotFound { binary: "ffmpeg".to_owned() });
            },
        };
        let p = &node.params;
        let (w, h): (u32, u32) = match (p.width, p.height) {
            (Some(w), Some(h)) => (w, h),
            _ => {
                return Err(missing("wmv9 requires explicit width and height"));
            },
        };
        let fps = match &p.frame_rate {
            Some(f) => f.as_str(),
            None => {
                return Err(missing("wmv9 requires an explicit frame rate"));
            },
        };
        let video_kbps: u32 = match p.video_bitrate_kbps {
            Some(n) => n,
            None => {
                return Err(missing("wmv9 requires an explicit video bitrate"));
            },
        };
        let audio_kbps: u32 = match p.audio_bitrate_kbps {
            Some(n) => n,
            None => {
                return Err(missing("wmv9 requires an explicit audio bitrate"));
            },
        };
        let ghost q = wmv9_request(*p)->Ok_0;
        let nv12 = scratch.file("video.nv12");
        let wav = scratch.file("audio.wav");

        let mut args: Vec<String> = Vec::new();
        push_flag(&mut args, "--video", nv12.as_str());
        push_flag(&mut args, "--width", decimal_text(w as u64).as_str());
        push_flag(&mut args, "--height", decimal_text(h as u64).as_str());
        push_flag(&mut args, "--fps", fps);
        push_flag(&mut args, "--vbitrate", decimal_text(video_kbps as u64).as_str());
        push_flag(&mut args, "--audio", wav.as_str());
        push_flag(&mut args, "--abitrate", decimal_text(audio_kbps as u64).as_str());
        push_flag(&mut args, "--output", node.output_path.as_str());
        assert(texts(args@) =~= helper_args(q, nv12@, wav@, node.output_path@));

        let mut steps: Vec<Step> = Vec::new();
        let frames = build_nv12_args(node.input_path.as_str(), w, h, fps, nv12.as_str());
        assert(texts(frames@) == nv12_args(node.input_path@, q, nv12@));
        steps.push(
            Step::Run {
                program: ffmpeg.clone(),
                args: frames,
                stage: Stage::Decode,
                subject: node.input_path.clone(),
            },
        );
        steps.push(
            Step::Run {
                program: ffmpeg.clone(),
                args: build_sound_args(
                    node.input_path.as_str(),
                    p.sample_rate_hz,
                    p.channels,
                    wav.as_str(),
                ),
                stage: Stage::Decode,
                subject: node.input_path.clone(),
            },
        );
        steps.push(
            Step::Run { program: self.helper.clone(), args, stage: Stage::Encode, subject: nv12 },
        );
        assert(step_texts(steps@) =~= wmv9_steps(self.helper@, ffmpeg@, *node, q, *scratch));
        Ok(steps)
    }
}

/// An encode writes the output file of its node and no other: every run names
/// it, or a file of the scratch directory, last.
pub proof fn law_only_the_output_is_written(
    adapter: Wmv9Adapter,
    node: ExecutionNode,
    scratch: Scratch,
    i: int,
)
    requires
        adapter.planned(node, scratch) is Ok,
        0 <= i < adapter.planned(node, scratch)->Ok_0.len(),
    ensures
        adapter.planned(node, scratch)->Ok_0[i] matches StepText::Run { args, .. } && (args.last()
            == node.output_path@ || args.last() == scratch.path_of("video.nv12"@) || args.last()
            == scratch.path_of("audio.wav"@)),
{
}

/// Where nothing stands in its way, an encode can be planned and run to its end.
pub proof fn law_no_obstacle_means_a_plan(
    adapter: Wmv9Adapter,
    node: ExecutionNode,
    scratch: Scratch,
)
    requires
        adapter.obstacle(node.params) is None,
    ensures
        can_be_run(adapter.planned(node, scratch)),
{
}

/// A WMV9 encode decodes the picture to NV12 frames of the size and frame rate of
/// the node, and the sound to a WAV at its sample rate and channels. The helper is
/// given these two files, the same size and frame rate, and each bitrate under its
/// own name, and writes the output.
pub proof fn law_wmv9_encodes_decode_picture_and_sound(
    adapter: Wmv9Adapter,
    node: ExecutionNode,
    scratch: Scratch,
    r: Result<Vec<Step>, AdapterError>,
)
    requires
        call_ensures(Wmv9Adapter::encode, (&adapter, &node, &scratch), r),
        r is Ok,
    ensures
        adapter.ffmpeg is Some,
        r->Ok_0@.len() == 3,
        ({
            let p = node.params;
            let first = r->Ok_0@[0]@;
            let second = r->Ok_0@[1]@;
            let third = r->Ok_0@[2]@;
            &&& first matches StepText::Run { program, args, stage, subject } && {
                &&& program == adapter.ffmpeg->0@ && stage == Stage::Decode && subject
                    == node.input_path@
                &&& args.len() == 13
                &&& args[0] == "-y"@ && args[1] == "-i"@ && args[2] == node.input_path@
                &&& has_word(args, "-an"@)
                &&& p.width matches Some(w) && p.height matches Some(h) && has_flag(
                    args,
                    "-vf"@,
                    "scale=w="@ + decimal(w as nat) + ":h="@ + decimal(h as nat)
                        + ":force_original_aspect_ratio=decrease,pad="@ + decimal(w as nat) + ":"@
                        + decimal(h as nat) + ":(ow-iw)/2:(oh-ih)/2:color=black"@,
                )
                &&& p.frame_rate matches Some(f) && has_flag(args, "-r"@, f@)
                &&& has_flag(args, "-pix_fmt"@, "nv12"@)
                &&& has_flag(args, "-f"@, "rawvideo"@)
                &&& second matches StepText::Run {
                    program: again,
                    args: sound,
                    stage: early,
                    subject: of,
                } && {
                    &&& again == program && early == Stage::Decode && of == node.input_path@
                    &&& sound.len() == 13
                    &&& sound[0] == "-y"@ && sound[1] == "-i"@ && sound[2] == node.input_path@
                    &&& has_word(sound, "-vn"@)
                    &&& has_flag(sound, "-ar"@, decimal(p.sample_rate_hz as nat))
                    &&& has_flag(sound, "-ac"@, decimal(p.channels as nat))
                    &&& has_flag(sound, "-codec:a"@, "pcm_s16le"@)
                    &&& has_flag(sound, "-f"@, "wav"@)
                    &&& sound.last() != args.last()
                    &&& third matches StepText::Run {
                        program: helper,
                        args: line,
                        stage: late,
                        subject: about,
                    } && {
                        &&& helper == adapter.helper@ && late == Stage::Encode && about
                            == args.last()
                        &&& line.len() == 16
                        &&& has_flag(line, "--video"@, args.last())
                        &&& has_flag(line, "--audio"@, sound.last())
                        &&& has_flag(line, "--width"@, decimal(p.width->0 as nat))
                        &&& has_flag(line, "--height"@, decimal(p.height->0 as nat))
                        &&& has_flag(line, "--fps"@, p.frame_rate->0@)
                        &&& p.video_bitrate_kbps matches Some(n) && has_flag(
                            line,
                            "--vbitrate"@,
                            decimal(n as nat),
                        )
                        &&& p.audio_bitrate_kbps matches Some(n) && has_flag(
                            line,
                            "--abitrate"@,
                            decimal(n as nat),
                        )
                        &&& has_flag(line, "--output"@, node.output_path@)
                        &&& line.last() == node.output_path@
                    }
                }
            }
        }),
{
    broadcast use group_command_lines;

    let steps = r->Ok_0@;
    assert(step_texts(steps) == adapter.planned(node, scratch)->Ok_0);
    assert(step_texts(steps).len() == 3);
    assert(step_texts(steps)[0] == steps[0]@);
    assert(step_texts(steps)[1] == steps[1]@);
    assert(step_texts(steps)[2] == steps[2]@);
    lemma_word_itself("-an"@);
    lemma_word_itself("-vn"@);
    assert(scratch.path_of("video.nv12"@) != scratch.path_of("audio.wav"@)) by {
        reveal_strlit("video.nv12");
        reveal_strlit("audio.wav");
        assert("video.nv12"@.len() == 10 && "audio.wav"@.len() == 9);
        assert(scratch.path_of("video.nv12"@).len() != scratch.path_of("audio.wav"@).len());
    }
}

/// WMV9 needs `ffmpeg`, a size, a frame rate and both bitrates; the first of them
/// that is missing is named, and an encode that misses none is planned.
pub proof fn law_wmv9_names_what_is_missing(
    adapter: Wmv9Adapter,
    node: ExecutionNode,
    scratch: Scratch,
    r: Option<String>,
    plan: Result<Vec<Step>, AdapterError>,
    usable: bool,
)
    requires
        call_ensures(Wmv9Adapter::find_obstacle, (&adapter, &node.params), r),
        call_ensures(Wmv9Adapter::encode, (&adapter, &node, &scratch), plan),
        call_ensures(Wmv9Adapter::is_available, (&adapter, true), usable),
    ensures
        ({
            let p = node.params;
            let sized = p.width is Some && p.height is Some;
            let timed = p.frame_rate is Some;
            let seen = p.video_bitrate_kbps is Some;
            let heard = p.audio_bitrate_kbps is Some;
            &&& usable <==> adapter.ffmpeg is Some
            &&& r is None <==> usable && sized && timed && seen && heard
            &&& plan is Ok <==> r is None
            &&& !usable ==> opt_text(r) == Some(
                "required binary '"@ + "ffmpeg"@ + "' not found in PATH"@,
            )
            &&& usable && !sized ==> opt_text(r) == Some("wmv9 requires explicit width and height"@)
            &&& usable && sized && !timed ==> opt_text(r) == Some(
                "wmv9 requires an explicit frame rate"@,
            )
            &&& usable && sized && timed && !seen ==> opt_text(r) == Some(
                "wmv9 requires an explicit video bitrate"@,
            )
            &&& usable && sized && timed && seen && !heard ==> opt_text(r) == Some(
                "wmv9 requires an explicit audio bitrate"@,
            )
        }),
{
}

/// The adapter speaks for WMV9 and no other codec.
pub proof fn law_wmv9_speaks_for_wmv9(adapter: Wmv9Adapter, codec: &str, r: bool)
    requires
        call_ensures(Wmv9Adapter::is_codec_available, (&adapter, codec), r),
    ensures
        r <==> codec@ == "wmv9"@,
{
    let l = adapter.codecs();
    assert(l[0] == "wmv9"@);
}

/// Without its helper the adapter cannot be used.
pub proof fn law_wmv9_needs_its_helper(adapter: Wmv9Adapter, r: bool)
    requires
        call_ensures(Wmv9Adapter::is_available, (&adapter, false), r),
    ensures
        !r,
{
}

} // verus!
