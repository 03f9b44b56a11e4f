//! Encoder adapters: what each can produce, and the steps that produce it.
//!
//! Adapters are stateless. All parameters come in with a node; what comes out is
//! the list of steps to run and, of what they wrote, the facts of the artifact.

pub mod atrac;
pub mod ffmpeg;
pub mod wmv9;

use crate::adapters::ffmpeg::has_flag;
use crate::error::AdapterError;
use crate::graph::{EncodeParams, ExecutionNode};
use crate::probe::MediaInfo;
use crate::text::{literal_texts, opt_text, push_text, texts};
use vstd::prelude::*;
use vstd::string::*;

verus! {

/// The facts of a file that was encoded.
#[derive(Debug)]
pub struct ArtifactInfo {
    pub output_path: String,
    pub size_bytes: u64,
    pub duration_ms: Option<u64>,
    pub container: String,
    pub video_codec: Option<String>,
    pub audio_codec: Option<String>,
    pub width: Option<u32>,
    pub height: Option<u32>,
    pub priming_samples: Option<u64>,
}

/// A directory for intermediate files, and the separator of its paths.
#[derive(Debug)]
pub struct Scratch {
    pub dir: String,
    pub sep: char,
}

impl Scratch {
    /// The path of a file in the directory.
    pub open spec fn path_of(&self, name: Seq<char>) -> Seq<char> {
        self.dir@.push(self.sep) + name
    }

    pub fn file(&self, name: &str) -> (r: String)
        ensures
            r@ == self.path_of(name@),
    {
        let mut p = self.dir.clone();
        p.push(self.sep);
        p.append(name);
        p
    }
}

/// Whether a step prepares the input or makes the output.
#[derive(Debug, Clone, Copy, PartialEq, Eq, Structural)]
pub enum Stage {
    Decode,
    Encode,
}

/// One step of an encode.
#[derive(Debug)]
pub enum Step {
    /// Run a program. `subject` is the file that a failure is reported of.
    Run { program: String, args: Vec<String>, stage: Stage, subject: String },
    /// Write `source` to `target` without its first ADTS frame. `subject` is the
    /// file that a failure is reported of.
    DropFirstFrame { source: String, target: String, subject: String },
    /// Give up: the encoder does not make the codec.
    Unsupported { codec: String },
}

/// A step, by its texts.
pub ghost enum StepText {
    Run { program: Seq<char>, args: Seq<Seq<char>>, stage: Stage, subject: Seq<char> },
    DropFirstFrame { source: Seq<char>, target: Seq<char>, subject: Seq<char> },
    Unsupported { codec: Seq<char> },
}

impl View for Step {
    type V = StepText;

    open spec fn view(&self) -> StepText {
        match self {
            Step::Run { program, args, stage, subject } => StepText::Run {
                program: program@,
                args: texts(args@),
                stage: *stage,
                subject: subject@,
            },
            Step::DropFirstFrame { source, target, subject } => StepText::DropFirstFrame {
                source: source@,
                target: target@,
                subject: subject@,
            },
            Step::Unsupported { codec } => StepText::Unsupported { codec: codec@ },
        }
    }
}

/// The steps of a list, by their texts.
pub open spec fn step_texts(v: Seq<Step>) -> Seq<StepText> {
    v.map_values(|s: Step| s@)
}

impl Step {
    pub open spec fn failure_of(&self, stderr: Seq<char>, e: AdapterError) -> bool {
        match self {
            Step::Run { stage: Stage::Decode, subject, .. } => e matches AdapterError::DecodeFailed {
                path,
                stderr: text,
            } && path@ == subject@ && text@ == stderr,
            Step::Run { stage: Stage::Encode, subject, .. } => e matches AdapterError::EncodeFailed {
                path,
                stderr: text,
            } && path@ == subject@ && text@ == stderr,
            Step::DropFirstFrame { subject, .. } => e matches AdapterError::EncodeFailed {
                path,
                stderr: text,
            } && path@ == subject@ && text@ == stderr,
            Step::Unsupported { codec } => e matches AdapterError::UnsupportedCodec(c) && c@
                == codec@,
        }
    }

    /// The error of an encode in which this step failed with a message.
    pub fn failure(&self, stderr: String) -> (r: AdapterError)
        ensures
            self.failure_of(stderr@, r),
    {
        match self {
            Step::Run { stage, subject, .. } => match stage {
                Stage::Decode => AdapterError::DecodeFailed { path: subject.clone(), stderr },
                Stage::Encode => AdapterError::EncodeFailed { path: subject.clone(), stderr },
            },
            Step::DropFirstFrame { subject, .. } => AdapterError::EncodeFailed {
                path: subject.clone(),
                stderr,
            },
            Step::Unsupported { codec } => AdapterError::UnsupportedCodec(codec.clone()),
        }
    }
}

/// What is said of a codec that an adapter cannot make.
pub open spec fn codec_refused(codec: Seq<char>) -> Seq<char> {
    "no adapter can encode to codec '"@ + codec + "'"@
}

pub fn codec_refused_text(codec: &str) -> (r: String)
    ensures
        r@ == codec_refused(codec@),
{
    let mut m = "no adapter can encode to codec '".to_owned();
    m.append(codec);
    m.append("'");
    m
}

/// What is said of a program that an adapter needs and has not found.
pub open spec fn program_missing(name: Seq<char>) -> Seq<char> {
    "required binary '"@ + name + "' not found in PATH"@
}

pub fn program_missing_text(name: &str) -> (r: String)
    ensures
        r@ == program_missing(name@),
{
    let mut m = "required binary '".to_owned();
    m.append(name);
    m.append("' not found in PATH");
    m
}

/// Whether all steps of an encode can be run.
pub open spec fn can_be_run(plan: Result<Seq<StepText>, Refusal>) -> bool {
    plan matches Ok(steps) && forall|i: int|
        0 <= i < steps.len() ==> !((#[trigger] steps[i]) is Unsupported)
}

/// Whether a word stands somewhere in a command line.
#[verifier::opaque]
pub open spec fn has_word(args: Seq<Seq<char>>, word: Seq<char>) -> bool {
    exists|i: int| 0 <= i < args.len() && #[trigger] args[i] == word
}

/// Whether an option stands in a command line once, and with a value.
pub open spec fn has_sole_flag(args: Seq<Seq<char>>, name: Seq<char>, value: Seq<char>) -> bool {
    exists|i: int|
        {
            &&& 0 <= i < args.len() - 1
            &&& #[trigger] args[i] == name
            &&& args[i + 1] == value
            &&& forall|j: int| 0 <= j < args.len() && #[trigger] args[j] == name ==> j == i
        }
}

pub broadcast proof fn lemma_word_itself(w: Seq<char>)
    ensures
        #[trigger] has_word(seq![w], w),
{
    reveal(has_word);
    assert(seq![w][0] == w);
}

pub proof fn lemma_word_at(args: Seq<Seq<char>>, i: int)
    requires
        0 <= i < args.len(),
    ensures
        has_word(args, args[i]),
{
    reveal(has_word);
}

pub broadcast proof fn lemma_word_left(a: Seq<Seq<char>>, b: Seq<Seq<char>>, w: Seq<char>)
    requires
        has_word(a, w),
    ensures
        #[trigger] has_word(a + b, w),
{
    reveal(has_word);
    let i = choose|i: int| 0 <= i < a.len() && #[trigger] a[i] == w;
    assert((a + b)[i] == w);
}

pub broadcast proof fn lemma_word_right(a: Seq<Seq<char>>, b: Seq<Seq<char>>, w: Seq<char>)
    requires
        has_word(b, w),
    ensures
        #[trigger] has_word(a + b, w),
{
    reveal(has_word);
    let i = choose|i: int| 0 <= i < b.len() && #[trigger] b[i] == w;
    assert((a + b)[a.len() + i] == w);
}

pub broadcast proof fn lemma_word_before(a: Seq<Seq<char>>, last: Seq<char>, w: Seq<char>)
    requires
        has_word(a, w),
    ensures
        #[trigger] has_word(a.push(last), w),
{
    reveal(has_word);
    let i = choose|i: int| 0 <= i < a.len() && #[trigger] a[i] == w;
    assert(a.push(last)[i] == w);
}

pub broadcast proof fn lemma_flag_itself(name: Seq<char>, value: Seq<char>)
    ensures
        #[trigger] has_flag(flag(name, value), name, value),
{
    reveal(has_flag);
    assert(flag(name, value)[0] == name && flag(name, value)[1] == value);
}

pub broadcast proof fn lemma_flag_left(
    a: Seq<Seq<char>>,
    b: Seq<Seq<char>>,
    name: Seq<char>,
    value: Seq<char>,
)
    requires
        has_flag(a, name, value),
    ensures
        #[trigger] has_flag(a + b, name, value),
{
    reveal(has_flag);
    let i = choose|i: int| 0 <= i < a.len() - 1 && #[trigger] a[i] == name && a[i + 1] == value;
    assert((a + b)[i] == name && (a + b)[i + 1] == value);
}

pub broadcast proof fn lemma_flag_right(
    a: Seq<Seq<char>>,
    b: Seq<Seq<char>>,
    name: Seq<char>,
    value: Seq<char>,
)
    requires
        has_flag(b, name, value),
    ensures
        #[trigger] has_flag(a + b, name, value),
{
    reveal(has_flag);
    let i = choose|i: int| 0 <= i < b.len() - 1 && #[trigger] b[i] == name && b[i + 1] == value;
    let n = a.len() as int;
    assert((a + b)[n + i] == name);
    assert((a + b)[n + i + 1] == value);
}

pub broadcast proof fn lemma_flag_before(
    a: Seq<Seq<char>>,
    last: Seq<char>,
    name: Seq<char>,
    value: Seq<char>,
)
    requires
        has_flag(a, name, value),
    ensures
        #[trigger] has_flag(a.push(last), name, value),
{
    reveal(has_flag);
    let i = choose|i: int| 0 <= i < a.len() - 1 && #[trigger] a[i] == name && a[i + 1] == value;
    assert(a.push(last)[i] == name && a.push(last)[i + 1] == value);
}

pub broadcast proof fn lemma_no_word_in_two(a: Seq<Seq<char>>, b: Seq<Seq<char>>, w: Seq<char>)
    requires
        !has_word(a, w),
        !has_word(b, w),
    ensures
        !(#[trigger] has_word(a + b, w)),
{
    reveal(has_word);
    if has_word(a + b, w) {
        let i = choose|i: int| 0 <= i < (a + b).len() && #[trigger] (a + b)[i] == w;
        if i < a.len() {
            assert(a[i] == w);
        } else {
            assert(b[i - a.len()] == w);
        }
    }
}

pub broadcast proof fn lemma_no_word_in_flag(name: Seq<char>, value: Seq<char>, w: Seq<char>)
    requires
        name != w,
        value != w,
    ensures
        !(#[trigger] has_word(flag(name, value), w)),
{
    reveal(has_word);
}

pub broadcast proof fn lemma_no_word_in_one(x: Seq<char>, w: Seq<char>)
    requires
        x != w,
    ensures
        !(#[trigger] has_word(seq![x], w)),
{
    reveal(has_word);
}

pub broadcast proof fn lemma_no_word_in_none(w: Seq<char>)
    ensures
        !(#[trigger] has_word(Seq::<Seq<char>>::empty(), w)),
{
    reveal(has_word);
}

/// An option that stands neither before nor behind a place stands there alone.
pub proof fn lemma_sole_flag(
    front: Seq<Seq<char>>,
    name: Seq<char>,
    value: Seq<char>,
    back: Seq<Seq<char>>,
)
    requires
        !has_word(front, name),
        value != name,
        !has_word(back, name),
    ensures
        has_sole_flag(front + flag(name, value) + back, name, value),
{
    reveal(has_word);
    let t = front + flag(name, value) + back;
    let i = front.len() as int;
    assert(t[i] == name);
    assert(t[i + 1] == value);
    assert forall|j: int| 0 <= j < t.len() && #[trigger] t[j] == name implies j == i by {
        if j < i {
            assert(front[j] == name);
        } else if j > i + 1 {
            assert(back[j - i - 2] == name);
        }
    }
}

pub broadcast group group_absent_words {
    lemma_no_word_in_two,
    lemma_no_word_in_flag,
    lemma_no_word_in_one,
    lemma_no_word_in_none,
}

pub broadcast group group_command_lines {
    lemma_word_itself,
    lemma_word_left,
    lemma_word_right,
    lemma_word_before,
    lemma_flag_itself,
    lemma_flag_left,
    lemma_flag_right,
    lemma_flag_before,
}

/// An encoder backend.
pub trait EncoderAdapter {
    /// The codecs that the adapter is made for.
    spec fn codecs(&self) -> Seq<Seq<char>>;

    /// Whether the adapter can produce a codec as it is installed.
    spec fn produces(&self, codec: Seq<char>) -> bool;

    /// Whether the adapter can run. `binary_present` says whether its own
    /// program is still there.
    spec fn usable(&self, binary_present: bool) -> bool;

    /// The steps that encode a node; the error where it cannot be encoded.
    spec fn planned(&self, node: ExecutionNode, scratch: Scratch) -> Result<
        Seq<StepText>,
        Refusal,
    >;

    /// What keeps the adapter from an encode with some parameters, if anything
    /// does.
    spec fn obstacle(&self, p: EncodeParams) -> Option<Seq<char>>;

    fn supported_output_codecs(&self) -> (r: Vec<&'static str>)
        ensures
            literal_texts(r@) == self.codecs(),
    ;

    fn is_available(&self, binary_present: bool) -> (r: bool)
        ensures
            r == self.usable(binary_present),
    ;

    fn is_codec_available(&self, codec: &str) -> (r: bool)
        ensures
            r == self.produces(codec@),
    ;

    /// What keeps the adapter from an encode, before anything is run.
    fn find_obstacle(&self, params: &EncodeParams) -> (r: Option<String>)
        ensures
            opt_text(r) == self.obstacle(*params),
    ;

    /// Plans the encode of one node.
    fn encode(&self, node: &ExecutionNode, scratch: &Scratch) -> (r: Result<
        Vec<Step>,
        AdapterError,
    >)
        ensures
            plan_result(r) == self.planned(*node, *scratch),
    ;
}

/// Why a node cannot be encoded.
pub ghost enum Refusal {
    UnsupportedCodec(Seq<char>),
    BinaryNotFound(Seq<char>),
    Failed,
}

/// A planned encode, by its texts.
pub open spec fn plan_result(r: Result<Vec<Step>, AdapterError>) -> Result<Seq<StepText>, Refusal> {
    match r {
        Ok(steps) => Ok(step_texts(steps@)),
        Err(AdapterError::UnsupportedCodec(codec)) => Err(Refusal::UnsupportedCodec(codec@)),
        Err(AdapterError::BinaryNotFound { binary }) => Err(Refusal::BinaryNotFound(binary@)),
        Err(_) => Err(Refusal::Failed),
    }
}

/// The first video stream's codec and size, the first audio codec, and the
/// priming of what was probed.
pub open spec fn is_shape_of(r: ArtifactInfo, info: MediaInfo) -> bool {
    match info {
        MediaInfo::Audio(a) => {
            &&& r.video_codec is None
            &&& opt_text(r.audio_codec) == Some(a.codec@)
            &&& r.width is None
            &&& r.height is None
            &&& r.priming_samples == a.priming_samples
        },
        MediaInfo::Video(v) => {
            &&& r.priming_samples is None
            &&& if v.video_streams@.len() == 0 {
                r.video_codec is None && r.width is None && r.height is None
            } else {
                &&& opt_text(r.video_codec) == Some(v.video_streams@[0].codec@)
                &&& r.width == Some(v.video_streams@[0].width)
                &&& r.height == Some(v.video_streams@[0].height)
            }
            &&& if v.audio_streams@.len() == 0 {
                r.audio_codec is None
            } else {
                opt_text(r.audio_codec) == Some(v.audio_streams@[0].codec@)
            }
        },
    }
}

/// Whether `a` is what is recorded of an encoded file: its facts where it was
/// probed, else its extension for a container and nothing more.
pub open spec fn is_record_of(
    a: ArtifactInfo,
    path: Seq<char>,
    extension: Option<Seq<char>>,
    size_bytes: u64,
    duration_ms: Option<u64>,
    probed: Option<&MediaInfo>,
) -> bool {
    &&& a.output_path@ == path
    &&& a.size_bytes == size_bytes
    &&& match probed {
        Some(info) => {
            &&& a.duration_ms == duration_ms
            &&& a.container@ == info.container_text()
            &&& is_shape_of(a, *info)
        },
        None => {
            &&& a.duration_ms is None
            &&& a.container@ == (match extension {
                Some(e) => e,
                None => Seq::empty(),
            })
            &&& a.video_codec is None
            &&& a.audio_codec is None
            &&& a.width is None
            &&& a.height is None
            &&& a.priming_samples is None
        },
    }
}

/// What is recorded of an encoded file of some size. An empty file is a failed
/// encode; one that no prober can read is not, and its shape stays open.
/// `duration_ms` is the duration of the probed file.
pub fn probe_output(
    path: &str,
    extension: Option<String>,
    size_bytes: u64,
    duration_ms: Option<u64>,
    probed: Option<&MediaInfo>,
) -> (r: Result<ArtifactInfo, AdapterError>)
    ensures
        r is Ok <==> size_bytes > 0,
        match r {
            Ok(a) => is_record_of(a, path@, opt_text(extension), size_bytes, duration_ms, probed),
            Err(e) => e matches AdapterError::EncodeFailed { path: p, stderr } && p@ == path@
                && stderr@ == "output file is empty"@,
        },
{
    if size_bytes == 0 {
        return Err(
            AdapterError::EncodeFailed {
                path: path.to_owned(),
                stderr: "output file is empty".to_owned(),
            },
        );
    }
    let mut a = ArtifactInfo {
        output_path: path.to_owned(),
        size_bytes,
        duration_ms: None,
        container: match extension {
            Some(e) => e,
            None => String::new(),
        },
        video_codec: None,
        audio_codec: None,
        width: None,
        height: None,
        priming_samples: None,
    };
    if let Some(info) = probed {
        a.duration_ms = duration_ms;
        a.container = info.container().to_owned();
        match info {
            MediaInfo::Audio(x) => {
                a.audio_codec = Some(x.codec.clone());
                a.priming_samples = x.priming_samples;
            },
            MediaInfo::Video(v) => {
                if v.video_streams.len() > 0 {
                    let s = &v.video_streams[0];
                    a.video_codec = Some(s.codec.clone());
                    a.width = Some(s.width);
                    a.height = Some(s.height);
                }
                if v.audio_streams.len() > 0 {
                    a.audio_codec = Some(v.audio_streams[0].codec.clone());
                }
            },
        }
    }
    Ok(a)
}

// ---- command lines --------------------------------------------------------

/// An option with its value.
pub open spec fn flag(name: Seq<char>, value: Seq<char>) -> Seq<Seq<char>> {
    seq![name, value]
}

/// An option that is given where it has a value.
pub open spec fn flag_if(name: Seq<char>, value: Option<Seq<char>>) -> Seq<Seq<char>> {
    match value {
        Some(v) => flag(name, v),
        None => Seq::empty(),
    }
}

pub proof fn lemma_appended(start: Seq<Seq<char>>, middle: Seq<Seq<char>>, end: Seq<Seq<char>>)
    ensures
        start + middle + end == start + (middle + end),
{
    assert(start + middle + end =~= start + (middle + end));
}

/// Appends an option with its value.
pub fn push_flag(args: &mut Vec<String>, name: &str, value: &str)
    ensures
        texts(final(args)@) == texts(old(args)@) + flag(name@, value@),
{
    push_text(args, name);
    push_text(args, value);
    assert(texts(args@) =~= texts(old(args)@) + flag(name@, value@));
}

/// Appends an option where it has a value.
pub fn push_flag_if(args: &mut Vec<String>, name: &str, value: &Option<String>)
    ensures
        texts(final(args)@) == texts(old(args)@) + flag_if(name@, opt_text(*value)),
{
    match value {
        Some(v) => push_flag(args, name, v.as_str()),
        None => {
            assert(texts(args@) =~= texts(args@) + flag_if(name@, opt_text(*value)));
        },
    }
}

// ---- laws -----------------------------------------------------------------

/// The files of a scratch directory lie below it, each under its own name.
pub proof fn law_scratch_files_lie_below_the_directory(
    scratch: Scratch,
    a: &str,
    b: &str,
    ra: String,
    rb: String,
)
    requires
        call_ensures(Scratch::file, (&scratch, a), ra),
        call_ensures(Scratch::file, (&scratch, b), rb),
    ensures
        ra@.take(scratch.dir@.len() as int) == scratch.dir@,
        ra@[scratch.dir@.len() as int] == scratch.sep,
        ra@.skip(scratch.dir@.len() as int + 1) == a@,
        ra@ == rb@ ==> a@ == b@,
{
    let n = scratch.dir@.len() as int;
    assert(ra@.take(n) =~= scratch.dir@);
    assert(ra@.skip(n + 1) =~= a@);
    assert(rb@.skip(n + 1) =~= b@);
}

/// A step that fails is reported of its subject, as a decode or an encode by its
/// stage, with what the program said.
pub proof fn law_failures_are_of_the_stage(step: Step, said: String, r: AdapterError)
    requires
        call_ensures(Step::failure, (&step, said), r),
    ensures
        step matches Step::Run { stage, subject, .. } ==> {
            &&& stage == Stage::Decode ==> (r matches AdapterError::DecodeFailed { path, stderr }
                && path@ == subject@ && stderr@ == said@)
            &&& stage == Stage::Encode ==> (r matches AdapterError::EncodeFailed { path, stderr }
                && path@ == subject@ && stderr@ == said@)
        },
        step matches Step::DropFirstFrame { subject, .. } ==> (
        r matches AdapterError::EncodeFailed { path, stderr } && path@ == subject@ && stderr@
            == said@),
        step matches Step::Unsupported { codec } ==> (r matches AdapterError::UnsupportedCodec(c)
            && c@ == codec@),
{
}

/// What is recorded of an output that could be probed is what probing tells of
/// it; of one that could not, its extension stands for the container.
pub proof fn law_outputs_are_recorded_as_probed(
    path: &str,
    extension: Option<String>,
    size: u64,
    ms: Option<u64>,
    info: MediaInfo,
    r: Result<ArtifactInfo, AdapterError>,
    unread: Result<ArtifactInfo, AdapterError>,
    container: &str,
    video: Option<String>,
    audio: Option<String>,
    dims: Option<(u32, u32)>,
)
    requires
        call_ensures(probe_output, (path, extension, size, ms, Some(&info)), r),
        call_ensures(probe_output, (path, extension, size, ms, None::<&MediaInfo>), unread),
        call_ensures(MediaInfo::container, (&info,), container),
        call_ensures(MediaInfo::video_codec, (&info,), video),
        call_ensures(MediaInfo::audio_codec, (&info,), audio),
        call_ensures(MediaInfo::dimensions, (&info,), dims),
    ensures
        r is Ok <==> size > 0,
        unread is Ok <==> size > 0,
        r matches Ok(a) ==> {
            &&& a.output_path@ == path@
            &&& a.size_bytes == size
            &&& a.duration_ms == ms
            &&& a.container@ == container@
            &&& opt_text(a.video_codec) == opt_text(video)
            &&& opt_text(a.audio_codec) == opt_text(audio)
            &&& dims is None ==> a.width is None && a.height is None
            &&& dims matches Some(d) ==> a.width == Some(d.0) && a.height == Some(d.1)
            &&& info matches MediaInfo::Audio(x) ==> a.priming_samples == x.priming_samples
            &&& info is Video ==> a.priming_samples is None
        },
        unread matches Ok(a) ==> {
            &&& a.output_path@ == path@
            &&& a.size_bytes == size
            &&& a.duration_ms is None
            &&& extension is Some ==> a.container@ == extension->0@
            &&& extension is None ==> a.container@.len() == 0
            &&& a.video_codec is None && a.audio_codec is None
            &&& a.width is None && a.height is None && a.priming_samples is None
        },
        r matches Err(e) ==> (e matches AdapterError::EncodeFailed { path: p, stderr } && p@ == path@
            && stderr@ == "output file is empty"@),
{
}

} // verus!
