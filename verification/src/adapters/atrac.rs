//! The ATRAC adapter, for MiniDisc SP, LP2 and LP4.
//!
//! An encode is two runs: `ffmpeg` decodes the input to an intermediate WAV, and
//! `atracdenc`, or failing that `atracenc`, encodes the WAV.

use crate::adapters::ffmpeg::has_flag;
use crate::adapters::{
    can_be_run, codec_refused, codec_refused_text, flag, group_command_lines, program_missing,
    program_missing_text, push_flag, step_texts, EncoderAdapter, Refusal, Scratch, Stage, Step,
    StepText,
};
use crate::binaries::{find_ffmpeg, find_tool, located, HostTools};
use crate::error::AdapterError;
use crate::graph::{EncodeParams, ExecutionNode};
use crate::text::{
    decimal, decimal_text, lists, literal_texts, opt_text, push_text, same_text, texts,
};
use vstd::prelude::*;
use vstd::string::*;

verus! {

/// The programs that the adapter found.
#[derive(Debug)]
pub struct AtracAdapter {
    pub atracdenc: Option<String>,
    pub atracenc: Option<String>,
    pub ffmpeg: Option<String>,
}

/// Which of the two encoders is run.
#[derive(Debug, Clone, Copy, PartialEq, Eq, Structural)]
pub enum AtracTool {
    Atracdenc,
    Atracenc,
}

/// The options by which `atracdenc` is told the format.
pub open spec fn atracdenc_format(codec: Seq<char>, bitrate: Option<u32>) -> Option<
    Seq<Seq<char>>,
> {
    if codec == "atrac1"@ {
        Some(flag("-e"@, "atrac1"@))
    } else if codec == "atrac3"@ {
        Some(
            flag("-e"@, "atrac3"@) + (if bitrate matches Some(n) && n <= 66 {
                flag("--bitrate"@, "66"@)
            } else {
                Seq::empty()
            }),
        )
    } else {
        None
    }
}

/// The options by which `atracenc` is told the format.
pub open spec fn atracenc_format(codec: Seq<char>, bitrate: Option<u32>) -> Option<Seq<Seq<char>>> {
    if codec == "atrac1"@ {
        Some(seq!["--mode=SP"@])
    } else if codec == "atrac3"@ {
        Some(
            seq![
                if bitrate matches Some(n) && n <= 66 {
                    "--mode=LP4"@
                } else {
                    "--mode=LP2"@
                },
            ],
        )
    } else {
        None
    }
}

/// The command line of an ATRAC encoder.
pub open spec fn atrac_args(
    tool: AtracTool,
    input: Seq<char>,
    output: Seq<char>,
    codec: Seq<char>,
    bitrate: Option<u32>,
) -> Option<Seq<Seq<char>>> {
    match tool {
        AtracTool::Atracdenc => match atracdenc_format(codec, bitrate) {
            Some(f) => Some(f + flag("-i"@, input) + flag("-o"@, output)),
            None => None,
        },
        AtracTool::Atracenc => match atracenc_format(codec, bitrate) {
            Some(f) => Some(f + seq![input, output]),
            None => None,
        },
    }
}

/// The command line of `atracdenc`.
pub fn build_atracdenc_args(
    input: &str,
    output: &str,
    codec: &str,
    bitrate_kbps: Option<u32>,
) -> (r: Result<Vec<String>, AdapterError>)
    ensures
        match r {
            Ok(args) => Some(texts(args@)) == atrac_args(
                AtracTool::Atracdenc,
                input@,
                output@,
                codec@,
                bitrate_kbps,
            ),
            Err(e) => atracdenc_format(codec@, bitrate_kbps) is None && (
            e matches AdapterError::UnsupportedCodec(c) && c@ == codec@),
        },
{
    let mut args: Vec<String> = Vec::new();
    if same_text(codec, "atrac1") {
        push_flag(&mut args, "-e", "atrac1");
    } else if same_text(codec, "atrac3") {
        push_flag(&mut args, "-e", "atrac3");
        if let Some(kbps) = bitrate_kbps {
            if kbps <= 66 {
                push_flag(&mut args, "--bitrate", "66");
            }
        }
    } else {
        return Err(AdapterError::UnsupportedCodec(codec.to_owned()));
    }
    assert(texts(args@) =~= atracdenc_format(codec@, bitrate_kbps)->0);
    push_flag(&mut args, "-i", input);
    push_flag(&mut args, "-o", output);
    Ok(args)
}

/// The command line of `atracenc`.
pub fn build_atracenc_args(
    input: &str,
    output: &str,
    codec: &str,
    bitrate_kbps: Option<u32>,
) -> (r: Result<Vec<String>, AdapterError>)
    ensures
        match r {
            Ok(args) => Some(texts(args@)) == atrac_args(
                AtracTool::Atracenc,
                input@,
                output@,
                codec@,
                bitrate_kbps,
            ),
            Err(e) => atracenc_format(codec@, bitrate_kbps) is None && (
            e matches AdapterError::UnsupportedCodec(c) && c@ == codec@),
        },
{
    let mut args: Vec<String> = Vec::new();
    if same_text(codec, "atrac1") {
        push_text(&mut args, "--mode=SP");
    } else if same_text(codec, "atrac3") {
        let kbps: u32 = bitrate_kbps.unwrap_or(132);
        if kbps <= 66 {
            push_text(&mut args, "--mode=LP4");
        } else {
            push_text(&mut args, "--mode=LP2");
        }
    } else {
        return Err(AdapterError::UnsupportedCodec(codec.to_owned()));
    }
    assert(texts(args@) =~= atracenc_format(codec@, bitrate_kbps)->0);
    push_text(&mut args, input);
    push_text(&mut args, output);
    assert(texts(args@) =~= atracenc_format(codec@, bitrate_kbps)->0 + seq![input@, output@]);
    Ok(args)
}

/// The command line that decodes an input to 16-bit PCM.
pub open spec fn wav_args(
    input: Seq<char>,
    sample_rate: u32,
    channels: u8,
    wav: Seq<char>,
) -> Seq<Seq<char>> {
    seq!["-y"@] + flag("-i"@, input) + flag("-ar"@, decimal(sample_rate as nat)) + flag(
        "-ac"@,
        decimal(channels as nat),
    ) + flag("-codec:a"@, "pcm_s16le"@) + flag("-f"@, "wav"@) + seq![wav]
}

fn build_wav_args(input: &str, sample_rate: u32, channels: u8, wav: &str) -> (r: Vec<String>)
    ensures
        texts(r@) == wav_args(input@, sample_rate, channels, wav@),
{
    let mut args: Vec<String> = Vec::new();
    push_text(&mut args, "-y");
    push_flag(&mut args, "-i", input);
    push_flag(&mut args, "-ar", decimal_text(sample_rate as u64).as_str());
    push_flag(&mut args, "-ac", decimal_text(channels as u64).as_str());
    push_flag(&mut args, "-codec:a", "pcm_s16le");
    push_flag(&mut args, "-f", "wav");
    push_text(&mut args, wav);
    assert(texts(args@) =~= wav_args(input@, sample_rate, channels, wav@));
    args
}

impl AtracAdapter {
    /// The encoder that is run: `atracdenc` where there is one.
    pub open spec fn encoder(&self) -> Option<(Seq<char>, AtracTool)> {
        match (self.atracdenc, self.atracenc) {
            (Some(p), _) => Some((p@, AtracTool::Atracdenc)),
            (None, Some(p)) => Some((p@, AtracTool::Atracenc)),
            (None, None) => None,
        }
    }

    /// The programs, each found in the order that holds for all programs.
    pub fn detect(host: &HostTools) -> (r: AtracAdapter)
        ensures
            opt_text(r.atracdenc) == located(host.atracdenc),
            opt_text(r.atracenc) == located(host.atracenc),
            opt_text(r.ffmpeg) == located(host.ffmpeg),
    {
        AtracAdapter {
            atracdenc: find_tool(&host.atracdenc),
            atracenc: find_tool(&host.atracenc),
            ffmpeg: find_ffmpeg(host),
        }
    }

    pub fn encoder_binary(&self) -> (r: Option<(String, AtracTool)>)
        ensures
            match r {
                Some((p, tool)) => self.encoder() == Some((p@, tool)),
                None => self.encoder() is None,
            },
    {
        if let Some(p) = &self.atracdenc {
            return Some((p.clone(), AtracTool::Atracdenc));
        }
        if let Some(p) = &self.atracenc {
            return Some((p.clone(), AtracTool::Atracenc));
        }
        None
    }

    /// The run of the encoder on the intermediate WAV.
    pub open spec fn encoder_step(
        binary: Seq<char>,
        tool: AtracTool,
        node: ExecutionNode,
        wav: Seq<char>,
    ) -> StepText {
        match atrac_args(
            tool,
            wav,
            node.output_path@,
            node.params.audio_codec@,
            node.params.audio_bitrate_kbps,
        ) {
            Some(args) => StepText::Run {
                program: binary,
                args,
                stage: Stage::Encode,
                subject: wav,
            },
            None => StepText::Unsupported { codec: node.params.audio_codec@ },
        }
    }
}

impl EncoderAdapter for AtracAdapter {
    open spec fn codecs(&self) -> Seq<Seq<char>> {
        seq!["atrac1"@, "atrac3"@, "atrac3p"@]
    }

    open spec fn produces(&self, codec: Seq<char>) -> bool {
        self.codecs().contains(codec)
    }

    open spec fn usable(&self, binary_present: bool) -> bool {
        self.encoder() is Some && self.ffmpeg is Some
    }

    open spec fn planned(&self, node: ExecutionNode, scratch: Scratch) -> Result<
        Seq<StepText>,
        Refusal,
    > {
        match (self.encoder(), self.ffmpeg) {
            (None, _) => Err(Refusal::BinaryNotFound("atracdenc or atracenc"@)),
            (Some(_), None) => Err(Refusal::BinaryNotFound("ffmpeg"@)),
            (Some((binary, tool)), Some(ffmpeg)) => {
                let wav = scratch.path_of("intermediate.wav"@);
                Ok(
                    seq![
                        StepText::Run {
                            program: ffmpeg@,
                            args: wav_args(
                                node.input_path@,
                                node.params.sample_rate_hz,
                                node.params.channels,
                                wav,
                            ),
                            stage: Stage::Decode,
                            subject: node.input_path@,
                        },
                        AtracAdapter::encoder_step(binary, tool, node, wav),
                    ],
                )
            },
        }
    }

    open spec fn obstacle(&self, p: EncodeParams) -> Option<Seq<char>> {
        if self.encoder() is None {
            Some(program_missing("atracdenc or atracenc"@))
        } else if self.ffmpeg is None {
            Some(program_missing("ffmpeg"@))
        } else if atracdenc_format(p.audio_codec@, p.audio_bitrate_kbps) is None {
            Some(codec_refused(p.audio_codec@))
        } else {
            None
        }
    }

    fn supported_output_codecs(&self) -> (r: Vec<&'static str>) {
        let v: Vec<&'static str> = vec!["atrac1", "atrac3", "atrac3p"];
        assert(literal_texts(v@) =~= self.codecs());
        v
    }

    fn is_available(&self, binary_present: bool) -> (r: bool) {
        self.encoder_binary().is_some() && self.ffmpeg.is_some()
    }

    fn is_codec_available(&self, codec: &str) -> (r: bool) {
        lists(&self.supported_output_codecs(), codec)
    }

    fn find_obstacle(&self, params: &EncodeParams) -> (r: Option<String>) {
        if self.encoder_binary().is_none() {
            return Some(program_missing_text("atracdenc or atracenc"));
        }
        if self.ffmpeg.is_none() {
            return Some(program_missing_text("ffmpeg"));
        }
        let codec = params.audio_codec.as_str();
        if !same_text(codec, "atrac1") && !same_text(codec, "atrac3") {
            return Some(codec_refused_text(codec));
        }
        None
    }

    fn encode(&self, node: &ExecutionNode, scratch: &Scratch) -> (r: Result<
        Vec<Step>,
        AdapterError,
    >) {
        let (binary, tool) = match self.encoder_binary() {
            Some(found) => found,
            None => {
                return Err(
                    AdapterError::BinaryNotFound { binary: "atracdenc or atracenc".to_owned() },
                );
            },
        };
        let ffmpeg = match &self.ffmpeg {
            Some(p) => p.clone(),
            None => {
                return Err(AdapterError::BinaryNotFound { binary: "ffmpeg".to_owned() });
            },
        };
        let p = &node.params;
        let wav = scratch.file("intermediate.wav");
        let mut steps: Vec<Step> = Vec::new();
        steps.push(
            Step::Run {
                program: ffmpeg,
                args: build_wav_args(
                    node.input_path.as_str(),
                    p.sample_rate_hz,
                    p.channels,
                    wav.as_str(),
                ),
                stage: Stage::Decode,
                subject: node.input_path.clone(),
            },
        );
        let built = match tool {
            AtracTool::Atracdenc => build_atracdenc_args(
                wav.as_str(),
                node.output_path.as_str(),
                p.audio_codec.as_str(),
                p.audio_bitrate_kbps,
            ),
            AtracTool::Atracenc => build_atracenc_args(
                wav.as_str(),
                node.output_path.as_str(),
                p.audio_codec.as_str(),
                p.audio_bitrate_kbps,
            ),
        };
        match built {
            Ok(args) => steps.push(
                Step::Run { program: binary, args, stage: Stage::Encode, subject: wav },
            ),
            Err(_) => steps.push(Step::Unsupported { codec: p.audio_codec.clone() }),
        }
        assert(step_texts(steps@) =~= self.planned(*node, *scratch)->Ok_0);
        Ok(steps)
    }
}

/// Both encoders make the same codecs.
pub proof fn law_both_encoders_make_the_same_codecs(codec: Seq<char>, bitrate: Option<u32>)
    ensures
        atracdenc_format(codec, bitrate) is Some <==> atracenc_format(codec, bitrate) is Some,
{
}

/// An encode writes the output file of its node and no other: every run names
/// it, or the intermediate WAV, last.
pub proof fn law_only_the_output_is_written(
    adapter: AtracAdapter,
    node: ExecutionNode,
    scratch: Scratch,
    i: int,
)
    requires
        adapter.planned(node, scratch) is Ok,
        0 <= i < adapter.planned(node, scratch)->Ok_0.len(),
    ensures
        match adapter.planned(node, scratch)->Ok_0[i] {
            StepText::Run { args, .. } => args.last() == node.output_path@ || args.last()
                == scratch.path_of("intermediate.wav"@),
            StepText::DropFirstFrame { .. } => false,
            StepText::Unsupported { codec } => codec == node.params.audio_codec@,
        },
{
}

/// Where nothing stands in its way, an encode can be planned and run to its end.
pub proof fn law_no_obstacle_means_a_plan(
    adapter: AtracAdapter,
    node: ExecutionNode,
    scratch: Scratch,
)
    requires
        adapter.obstacle(node.params) is None,
    ensures
        can_be_run(adapter.planned(node, scratch)),
{
}

proof fn lemma_atrac_names_apart()
    ensures
        "atrac1"@ != "atrac3"@,
        "atrac1"@ != "atrac3p"@,
        "atrac3"@ != "atrac3p"@,
        "--mode=SP"@ != "--mode=LP2"@,
        "--mode=SP"@ != "--mode=LP4"@,
        "--mode=LP2"@ != "--mode=LP4"@,
{
    reveal_strlit("atrac1");
    reveal_strlit("atrac3");
    reveal_strlit("atrac3p");
    reveal_strlit("--mode=SP");
    reveal_strlit("--mode=LP2");
    reveal_strlit("--mode=LP4");
    assert("atrac1"@.len() == 6);
    assert("atrac3"@.len() == 6);
    assert("atrac3p"@.len() == 7);
    assert("--mode=SP"@.len() == 9);
    assert("--mode=LP2"@.len() == 10);
    assert("--mode=LP4"@.len() == 10);
    assert("atrac1"@[5] != "atrac3"@[5]);
    assert("--mode=LP2"@[9] != "--mode=LP4"@[9]);
}

/// The decode of an ATRAC encode reads the source and writes a 16-bit WAV at the
/// sample rate and with the channels of the node. The encoder, `atracdenc` where
/// it is there, reads that WAV and writes the output, in the mode of the codec: SP
/// for the first, and for the second LP4 up to 66 kbps, else LP2.
pub proof fn law_atrac_encodes_decode_first(
    adapter: AtracAdapter,
    node: ExecutionNode,
    scratch: Scratch,
    r: Result<Vec<Step>, AdapterError>,
)
    requires
        call_ensures(AtracAdapter::encode, (&adapter, &node, &scratch), r),
        adapter.ffmpeg is Some,
        adapter.atracdenc is Some || adapter.atracenc is Some,
    ensures
        r is Ok,
        r->Ok_0@.len() == 2,
        ({
            let p = node.params;
            let low = p.audio_bitrate_kbps matches Some(n) && n <= 66;
            let first = r->Ok_0@[0]@;
            let second = r->Ok_0@[1]@;
            &&& first matches StepText::Run { program, args, stage, subject } && {
                &&& program == adapter.ffmpeg->0@
                &&& stage == Stage::Decode
                &&& subject == node.input_path@
                &&& args.len() == 12
                &&& args[0] == "-y"@
                &&& args[1] == "-i"@
                &&& args[2] == node.input_path@
                &&& has_flag(args, "-ar"@, decimal(p.sample_rate_hz as nat))
                &&& has_flag(args, "-ac"@, decimal(p.channels as nat))
                &&& has_flag(args, "-codec:a"@, "pcm_s16le"@)
                &&& has_flag(args, "-f"@, "wav"@)
                &&& p.audio_codec@ == "atrac1"@ || p.audio_codec@ == "atrac3"@ ==> {
                    &&& second matches StepText::Run {
                        program: encoder,
                        args: line,
                        stage: late,
                        subject: of,
                    } && {
                        &&& late == Stage::Encode
                        &&& of == args.last()
                        &&& line.last() == node.output_path@
                        &&& adapter.atracdenc matches Some(path) ==> {
                            &&& encoder == path@
                            &&& has_flag(line, "-e"@, p.audio_codec@)
                            &&& has_flag(line, "-i"@, args.last())
                            &&& has_flag(line, "-o"@, node.output_path@)
                            &&& p.audio_codec@ == "atrac3"@ && low ==> has_flag(
                                line,
                                "--bitrate"@,
                                "66"@,
                            )
                            &&& line.len() == (if p.audio_codec@ == "atrac3"@ && low {
                                8int
                            } else {
                                6
                            })
                        }
                        &&& adapter.atracenc matches Some(path) ==> adapter.atracdenc is None ==> {
                            &&& encoder == path@
                            &&& line.len() == 3
                            &&& line[0] == "--mode=SP"@ <==> p.audio_codec@ == "atrac1"@
                            &&& line[0] == "--mode=LP4"@ <==> p.audio_codec@ == "atrac3"@ && low
                            &&& line[0] == "--mode=LP2"@ <==> p.audio_codec@ == "atrac3"@ && !low
                            &&& line[1] == args.last()
                        }
                    }
                }
            }
            &&& p.audio_codec@ != "atrac1"@ && p.audio_codec@ != "atrac3"@ ==> (
            second matches StepText::Unsupported { codec } && codec == p.audio_codec@)
        }),
{
    broadcast use group_command_lines;

    lemma_atrac_names_apart();
    let steps = r->Ok_0@;
    assert(step_texts(steps) == adapter.planned(node, scratch)->Ok_0);
    assert(step_texts(steps).len() == 2);
    assert(step_texts(steps)[0] == steps[0]@);
    assert(step_texts(steps)[1] == steps[1]@);
}

/// An encode is refused for a program only where the program is missing, the
/// encoder before `ffmpeg`, and for its codec only where neither encoder makes it.
pub proof fn law_atrac_obstacles_are_named(
    adapter: AtracAdapter,
    params: EncodeParams,
    r: Option<String>,
    usable: bool,
)
    requires
        call_ensures(AtracAdapter::find_obstacle, (&adapter, &params), r),
        call_ensures(AtracAdapter::is_available, (&adapter, true), usable),
    ensures
        usable <==> adapter.ffmpeg is Some && (adapter.atracdenc is Some
            || adapter.atracenc is Some),
        r is None <==> usable && (params.audio_codec@ == "atrac1"@ || params.audio_codec@
            == "atrac3"@),
        adapter.atracdenc is None && adapter.atracenc is None ==> opt_text(r) == Some(
            "required binary '"@ + "atracdenc or atracenc"@ + "' not found in PATH"@,
        ),
        (adapter.atracdenc is Some || adapter.atracenc is Some) && adapter.ffmpeg is None
            ==> opt_text(r) == Some("required binary '"@ + "ffmpeg"@ + "' not found in PATH"@),
        usable && r is Some ==> opt_text(r) == Some(
            "no adapter can encode to codec '"@ + params.audio_codec@ + "'"@,
        ),
{
}

/// The adapter speaks for the three ATRAC codecs and no other.
pub proof fn law_atrac_speaks_for_atrac(adapter: AtracAdapter, codec: &str, r: bool)
    requires
        call_ensures(AtracAdapter::is_codec_available, (&adapter, codec), r),
    ensures
        r <==> codec@ == "atrac1"@ || codec@ == "atrac3"@ || codec@ == "atrac3p"@,
{
    let l = adapter.codecs();
    assert(l[0] == "atrac1"@ && l[1] == "atrac3"@ && l[2] == "atrac3p"@);
}

} // verus!
