//! The decisions of the `bbt-wmv9` helper: its command line, the sample times of
//! picture and sound, and the choice of a WMA format.

use crate::adapters::wmv9::{helper_args, Wmv9Request};
use crate::text::{
    all_digits, decimal, decimal_text, digit_char, digits_value, number_in, opt_text, parse_number,
    same_text, texts,
};
use crate::wav::Wav;
use vstd::prelude::*;
use vstd::string::*;

verus! {

// ---- command line ---------------------------------------------------------

/// The values of the command line.
#[derive(Debug)]
pub struct HelperArgs {
    pub video: String,
    pub width: u32,
    pub height: u32,
    /// Frames per second, as it was given.
    pub fps: String,
    pub vbitrate_kbps: u32,
    pub audio: String,
    pub abitrate_kbps: u32,
    pub output: String,
}

/// Why a command line is not run.
#[derive(Debug)]
pub enum ArgsError {
    /// Help was asked for.
    Help,
    /// An option stands last, without its value.
    MissingValue(String),
    /// A value is not the number that its option takes.
    BadNumber(String),
    /// There is no such option.
    Unknown(String),
    /// A required option is absent.
    MissingOption(&'static str),
}

/// Why a command line is not run, by its texts.
pub ghost enum ArgsFault {
    Help,
    MissingValue(Seq<char>),
    BadNumber(Seq<char>),
    Unknown(Seq<char>),
    MissingOption(Seq<char>),
}

impl View for ArgsError {
    type V = ArgsFault;

    open spec fn view(&self) -> ArgsFault {
        match self {
            ArgsError::Help => ArgsFault::Help,
            ArgsError::MissingValue(s) => ArgsFault::MissingValue(s@),
            ArgsError::BadNumber(s) => ArgsFault::BadNumber(s@),
            ArgsError::Unknown(s) => ArgsFault::Unknown(s@),
            ArgsError::MissingOption(s) => ArgsFault::MissingOption(s@),
        }
    }
}

/// What has been read of a command line.
pub ghost struct Given {
    pub video: Option<Seq<char>>,
    pub width: Option<nat>,
    pub height: Option<nat>,
    pub fps: Option<Seq<char>>,
    pub vbitrate: Option<nat>,
    pub audio: Option<Seq<char>>,
    pub abitrate: Option<nat>,
    pub output: Option<Seq<char>>,
}

/// Before anything is read.
pub open spec fn nothing_given() -> Given {
    Given {
        video: None,
        width: None,
        height: None,
        fps: None,
        vbitrate: None,
        audio: None,
        abitrate: None,
        output: None,
    }
}

/// Whether a word is an option.
pub open spec fn is_option(w: Seq<char>) -> bool {
    ||| w == "--video"@
    ||| w == "--width"@
    ||| w == "--height"@
    ||| w == "--fps"@
    ||| w == "--vbitrate"@
    ||| w == "--audio"@
    ||| w == "--abitrate"@
    ||| w == "--output"@
}

/// The 32-bit number in a word.
pub open spec fn small_number(w: Seq<char>) -> Option<nat> {
    number_in(w, 10, u32::MAX as nat)
}

/// What is known once an option and its value are read. `is_fraction` says
/// whether the value reads as a number with a fraction.
pub open spec fn with_option(
    known: Given,
    option: Seq<char>,
    value: Seq<char>,
    is_fraction: bool,
) -> Result<Given, ArgsFault> {
    if option == "--video"@ {
        Ok(Given { video: Some(value), ..known })
    } else if option == "--audio"@ {
        Ok(Given { audio: Some(value), ..known })
    } else if option == "--output"@ {
        Ok(Given { output: Some(value), ..known })
    } else if option == "--fps"@ {
        if is_fraction {
            Ok(Given { fps: Some(value), ..known })
        } else {
            Err(ArgsFault::BadNumber(value))
        }
    } else if small_number(value) is None {
        Err(ArgsFault::BadNumber(value))
    } else if option == "--width"@ {
        Ok(Given { width: small_number(value), ..known })
    } else if option == "--height"@ {
        Ok(Given { height: small_number(value), ..known })
    } else if option == "--vbitrate"@ {
        Ok(Given { vbitrate: small_number(value), ..known })
    } else {
        Ok(Given { abitrate: small_number(value), ..known })
    }
}

/// What a command line gives, from a word on; a later value of an option takes
/// the place of an earlier one.
pub open spec fn given_from(
    words: Seq<Seq<char>>,
    fractions: Seq<bool>,
    i: int,
    known: Given,
) -> Result<Given, ArgsFault>
    decreases words.len() - i,
{
    if i < 0 || i >= words.len() {
        Ok(known)
    } else if words[i] == "-h"@ || words[i] == "--help"@ {
        Err(ArgsFault::Help)
    } else if !is_option(words[i]) {
        Err(ArgsFault::Unknown(words[i]))
    } else if i + 1 >= words.len() {
        Err(ArgsFault::MissingValue(words[i]))
    } else {
        match with_option(known, words[i], words[i + 1], fractions[i + 1]) {
            Ok(next) => given_from(words, fractions, i + 2, next),
            Err(e) => Err(e),
        }
    }
}

/// The first required option that is absent.
pub open spec fn absent(g: Given) -> Option<Seq<char>> {
    if g.video is None {
        Some("--video"@)
    } else if g.width is None {
        Some("--width"@)
    } else if g.height is None {
        Some("--height"@)
    } else if g.fps is None {
        Some("--fps"@)
    } else if g.vbitrate is None {
        Some("--vbitrate"@)
    } else if g.audio is None {
        Some("--audio"@)
    } else if g.abitrate is None {
        Some("--abitrate"@)
    } else if g.output is None {
        Some("--output"@)
    } else {
        None
    }
}

/// Whether some values are those that a command line gives.
pub open spec fn are_given(a: HelperArgs, g: Given) -> bool {
    &&& g.video == Some(a.video@)
    &&& g.width == Some(a.width as nat)
    &&& g.height == Some(a.height as nat)
    &&& g.fps == Some(a.fps@)
    &&& g.vbitrate == Some(a.vbitrate_kbps as nat)
    &&& g.audio == Some(a.audio@)
    &&& g.abitrate == Some(a.abitrate_kbps as nat)
    &&& g.output == Some(a.output@)
}

/// The number of an optional 32-bit value.
pub open spec fn opt_nat(n: Option<u32>) -> Option<nat> {
    match n {
        Some(x) => Some(x as nat),
        None => None,
    }
}

fn small(word: &str) -> (r: Option<u32>)
    ensures
        opt_nat(r) == small_number(word@),
{
    match parse_number(word, 10, u32::MAX as u64) {
        Some(n) => Some(n as u32),
        None => None,
    }
}

fn option_word(w: &str) -> (r: bool)
    ensures
        r == is_option(w@),
{
    same_text(w, "--video") || same_text(w, "--width") || same_text(w, "--height") || same_text(
        w,
        "--fps",
    ) || same_text(w, "--vbitrate") || same_text(w, "--audio") || same_text(w, "--abitrate")
        || same_text(w, "--output")
}

/// Reads a command line. `fractions` says of each word whether it reads as a
/// number with a fraction.
pub fn parse_args(words: &[String], fractions: &[bool]) -> (r: Result<HelperArgs, ArgsError>)
    requires
        fractions@.len() == words@.len(),
    ensures
        match (r, given_from(texts(words@), fractions@, 0, nothing_given())) {
            (Err(e), Err(fault)) => e@ == fault,
            (Ok(_), Err(_)) => false,
            (Ok(a), Ok(g)) => absent(g) is None && are_given(a, g),
            (Err(e), Ok(g)) => absent(g) is Some && e@ == ArgsFault::MissingOption(absent(g)->0),
        },
{
    let mut video: Option<String> = None;
    let mut width: Option<u32> = None;
    let mut height: Option<u32> = None;
    let mut fps: Option<String> = None;
    let mut vbitrate: Option<u32> = None;
    let mut audio: Option<String> = None;
    let mut abitrate: Option<u32> = None;
    let mut output: Option<String> = None;
    let ghost all = texts(words@);
    let ghost mut known = nothing_given();
    let n: usize = words.len();
    let mut i: usize = 0;
    while i < n
        invariant
            n == words.len(),
            i <= n,
            all == texts(words@),
            fractions@.len() == n,
            given_from(all, fractions@, 0, nothing_given()) == given_from(
                all,
                fractions@,
                i as int,
                known,
            ),
            known.video == opt_text(video),
            known.width == opt_nat(width),
            known.height == opt_nat(height),
            known.fps == opt_text(fps),
            known.vbitrate == opt_nat(vbitrate),
            known.audio == opt_text(audio),
            known.abitrate == opt_nat(abitrate),
            known.output == opt_text(output),
        decreases n - i,
    {
        let flag = words[i].as_str();
        assert(all[i as int] == flag@);
        if same_text(flag, "-h") || same_text(flag, "--help") {
            return Err(ArgsError::Help);
        }
        if !option_word(flag) {
            return Err(ArgsError::Unknown(words[i].clone()));
        }
        if i + 1 >= n {
            return Err(ArgsError::MissingValue(words[i].clone()));
        }
        let value = words[i + 1].as_str();
        assert(all[i + 1] == value@);
        let ghost next = with_option(known, flag@, value@, fractions@[i + 1]);
        if same_text(flag, "--video") {
            video = Some(value.to_owned());
        } else if same_text(flag, "--audio") {
            audio = Some(value.to_owned());
        } else if same_text(flag, "--output") {
            output = Some(value.to_owned());
        } else if same_text(flag, "--fps") {
            if !fractions[i + 1] {
                return Err(ArgsError::BadNumber(value.to_owned()));
            }
            fps = Some(value.to_owned());
        } else {
            let number = match small(value) {
                Some(x) => Some(x),
                None => {
                    return Err(ArgsError::BadNumber(value.to_owned()));
                },
            };
            if same_text(flag, "--width") {
                width = number;
            } else if same_text(flag, "--height") {
                height = number;
            } else if same_text(flag, "--vbitrate") {
                vbitrate = number;
            } else {
                abitrate = number;
            }
        }
        proof {
            known = next->Ok_0;
        }
        i = i + 2;
    }
    let video = match video {
        Some(v) => v,
        None => {
            return Err(ArgsError::MissingOption("--video"));
        },
    };
    let width: u32 = match width {
        Some(v) => v,
        None => {
            return Err(ArgsError::MissingOption("--width"));
        },
    };
    let height: u32 = match height {
        Some(v) => v,
        None => {
            return Err(ArgsError::MissingOption("--height"));
        },
    };
    let fps = match fps {
        Some(v) => v,
        None => {
            return Err(ArgsError::MissingOption("--fps"));
        },
    };
    let vbitrate_kbps: u32 = match vbitrate {
        Some(v) => v,
        None => {
            return Err(ArgsError::MissingOption("--vbitrate"));
        },
    };
    let audio = match audio {
        Some(v) => v,
        None => {
            return Err(ArgsError::MissingOption("--audio"));
        },
    };
    let abitrate_kbps: u32 = match abitrate {
        Some(v) => v,
        None => {
            return Err(ArgsError::MissingOption("--abitrate"));
        },
    };
    let output = match output {
        Some(v) => v,
        None => {
            return Err(ArgsError::MissingOption("--output"));
        },
    };
    Ok(HelperArgs { video, width, height, fps, vbitrate_kbps, audio, abitrate_kbps, output })
}

/// The digits of a number read as that number.
proof fn lemma_decimal_reads_back(n: nat)
    ensures
        decimal(n).len() > 0,
        all_digits(decimal(n), 10),
        digits_value(decimal(n), 10) == n,
        decimal(n)[0] != '+',
    decreases n,
{
    if n < 10 {
        let d = decimal(n);
        assert(d.drop_last() =~= Seq::<char>::empty());
        assert(d.last() == digit_char(n));
        assert(digits_value(d.drop_last(), 10) == 0);
    } else {
        lemma_decimal_reads_back(n / 10);
        let d = decimal(n);
        assert(d.drop_last() =~= decimal(n / 10));
        assert(d.last() == digit_char(n % 10));
        assert(d[0] == decimal(n / 10)[0]);
    }
}

proof fn lemma_small_number_reads_back(n: u32)
    ensures
        small_number(decimal(n as nat)) == Some(n as nat),
{
    lemma_decimal_reads_back(n as nat);
}

proof fn lemma_options_differ()
    ensures
        "--video"@ != "--width"@,
        "--video"@ != "--height"@,
        "--video"@ != "--fps"@,
        "--video"@ != "--vbitrate"@,
        "--video"@ != "--audio"@,
        "--video"@ != "--abitrate"@,
        "--video"@ != "--output"@,
        "--width"@ != "--height"@,
        "--width"@ != "--fps"@,
        "--width"@ != "--vbitrate"@,
        "--width"@ != "--audio"@,
        "--width"@ != "--abitrate"@,
        "--width"@ != "--output"@,
        "--height"@ != "--fps"@,
        "--height"@ != "--vbitrate"@,
        "--height"@ != "--audio"@,
        "--height"@ != "--abitrate"@,
        "--height"@ != "--output"@,
        "--fps"@ != "--vbitrate"@,
        "--fps"@ != "--audio"@,
        "--fps"@ != "--abitrate"@,
        "--fps"@ != "--output"@,
        "--vbitrate"@ != "--audio"@,
        "--vbitrate"@ != "--abitrate"@,
        "--vbitrate"@ != "--output"@,
        "--audio"@ != "--abitrate"@,
        "--audio"@ != "--output"@,
        "--abitrate"@ != "--output"@,
        forall|w: Seq<char>| is_option(w) ==> w != "-h"@ && w != "--help"@,
{
    reveal_strlit("--video");
    reveal_strlit("--width");
    reveal_strlit("--height");
    reveal_strlit("--fps");
    reveal_strlit("--vbitrate");
    reveal_strlit("--audio");
    reveal_strlit("--abitrate");
    reveal_strlit("--output");
    reveal_strlit("-h");
    reveal_strlit("--help");
    assert("--video"@[2] == 'v' && "--video"@[3] == 'i');
    assert("--width"@[2] == 'w');
    assert("--height"@[2] == 'h' && "--height"@.len() == 8);
    assert("--fps"@[2] == 'f');
    assert("--vbitrate"@[2] == 'v' && "--vbitrate"@[3] == 'b');
    assert("--audio"@[2] == 'a' && "--audio"@[3] == 'u');
    assert("--abitrate"@[2] == 'a' && "--abitrate"@[3] == 'b');
    assert("--output"@[2] == 'o');
    assert("-h"@.len() == 2);
    assert("--help"@[2] == 'h' && "--help"@.len() == 6);
}

proof fn lemma_option_read(
    words: Seq<Seq<char>>,
    fractions: Seq<bool>,
    i: int,
    known: Given,
    next: Given,
)
    requires
        0 <= i,
        i + 1 < words.len(),
        is_option(words[i]),
        with_option(known, words[i], words[i + 1], fractions[i + 1]) == Ok::<Given, ArgsFault>(
            next,
        ),
    ensures
        given_from(words, fractions, i, known) == given_from(words, fractions, i + 2, next),
{
    lemma_options_differ();
}

proof fn lemma_options_taken(known: Given, text: Seq<char>, n: u32)
    ensures
        with_option(known, "--video"@, text, false) == Ok::<Given, ArgsFault>(
            Given { video: Some(text), ..known },
        ),
        with_option(known, "--video"@, text, true) == Ok::<Given, ArgsFault>(
            Given { video: Some(text), ..known },
        ),
        with_option(known, "--audio"@, text, false) == Ok::<Given, ArgsFault>(
            Given { audio: Some(text), ..known },
        ),
        with_option(known, "--audio"@, text, true) == Ok::<Given, ArgsFault>(
            Given { audio: Some(text), ..known },
        ),
        with_option(known, "--output"@, text, false) == Ok::<Given, ArgsFault>(
            Given { output: Some(text), ..known },
        ),
        with_option(known, "--output"@, text, true) == Ok::<Given, ArgsFault>(
            Given { output: Some(text), ..known },
        ),
        with_option(known, "--fps"@, text, true) == Ok::<Given, ArgsFault>(
            Given { fps: Some(text), ..known },
        ),
        forall|b: bool|
            (#[trigger] with_option(known, "--width"@, decimal(n as nat), b)) == Ok::<
                Given,
                ArgsFault,
            >(Given { width: Some(n as nat), ..known }),
        forall|b: bool|
            (#[trigger] with_option(known, "--height"@, decimal(n as nat), b)) == Ok::<
                Given,
                ArgsFault,
            >(Given { height: Some(n as nat), ..known }),
        forall|b: bool|
            (#[trigger] with_option(known, "--vbitrate"@, decimal(n as nat), b)) == Ok::<
                Given,
                ArgsFault,
            >(Given { vbitrate: Some(n as nat), ..known }),
        forall|b: bool|
            (#[trigger] with_option(known, "--abitrate"@, decimal(n as nat), b)) == Ok::<
                Given,
                ArgsFault,
            >(Given { abitrate: Some(n as nat), ..known }),
{
    lemma_options_differ();
    lemma_small_number_reads_back(n);
}

/// The helper understands the adapter: the command line that a WMV9 encode runs
/// gives back every value that went into it.
pub proof fn law_helper_reads_the_adapters_command_line(
    q: Wmv9Request,
    nv12: Seq<char>,
    wav: Seq<char>,
    output: Seq<char>,
    fractions: Seq<bool>,
)
    requires
        fractions.len() == helper_args(q, nv12, wav, output).len(),
        fractions[7],
    ensures
        given_from(helper_args(q, nv12, wav, output), fractions, 0, nothing_given()) == Ok::<
            Given,
            ArgsFault,
        >(
            Given {
                video: Some(nv12),
                width: Some(q.width as nat),
                height: Some(q.height as nat),
                fps: Some(q.fps),
                vbitrate: Some(q.video_kbps as nat),
                audio: Some(wav),
                abitrate: Some(q.audio_kbps as nat),
                output: Some(output),
            },
        ),
{
    let w = helper_args(q, nv12, wav, output);
    assert(w.len() == 16);
    assert(w[0] == "--video"@ && w[1] == nv12);
    assert(w[2] == "--width"@ && w[3] == decimal(q.width as nat));
    assert(w[4] == "--height"@ && w[5] == decimal(q.height as nat));
    assert(w[6] == "--fps"@ && w[7] == q.fps);
    assert(w[8] == "--vbitrate"@ && w[9] == decimal(q.video_kbps as nat));
    assert(w[10] == "--audio"@ && w[11] == wav);
    assert(w[12] == "--abitrate"@ && w[13] == decimal(q.audio_kbps as nat));
    assert(w[14] == "--output"@ && w[15] == output);
    let g0 = nothing_given();
    let g1 = Given { video: Some(nv12), ..g0 };
    let g2 = Given { width: Some(q.width as nat), ..g1 };
    let g3 = Given { height: Some(q.height as nat), ..g2 };
    let g4 = Given { fps: Some(q.fps), ..g3 };
    let g5 = Given { vbitrate: Some(q.video_kbps as nat), ..g4 };
    let g6 = Given { audio: Some(wav), ..g5 };
    let g7 = Given { abitrate: Some(q.audio_kbps as nat), ..g6 };
    let g8 = Given { output: Some(output), ..g7 };
    lemma_options_taken(g0, nv12, 0);
    lemma_option_read(w, fractions, 0, g0, g1);
    lemma_options_taken(g1, nv12, q.width);
    lemma_option_read(w, fractions, 2, g1, g2);
    lemma_options_taken(g2, nv12, q.height);
    lemma_option_read(w, fractions, 4, g2, g3);
    lemma_options_taken(g3, q.fps, 0);
    lemma_option_read(w, fractions, 6, g3, g4);
    lemma_options_taken(g4, nv12, q.video_kbps);
    lemma_option_read(w, fractions, 8, g4, g5);
    lemma_options_taken(g5, wav, 0);
    lemma_option_read(w, fractions, 10, g5, g6);
    lemma_options_taken(g6, nv12, q.audio_kbps);
    lemma_option_read(w, fractions, 12, g6, g7);
    lemma_options_taken(g7, output, 0);
    lemma_option_read(w, fractions, 14, g7, g8);
    assert(given_from(w, fractions, 16, g8) == Ok::<Given, ArgsFault>(g8));
}

// ---- picture --------------------------------------------------------------

/// A sample: a range of bytes with its time and duration in units of 100 ns.
#[derive(Debug, Clone, Copy, PartialEq, Eq, Structural)]
pub struct Sample {
    pub start: usize,
    pub len: usize,
    pub time: i64,
    pub duration: i64,
}

/// The size of an NV12 frame: a full plane of luma and a half of chroma.
pub open spec fn nv12_size(width: nat, height: nat) -> nat {
    (width * height * 3) / 2
}

pub fn nv12_frame_len(width: u32, height: u32) -> (r: usize)
    requires
        width * height * 3 <= usize::MAX,
    ensures
        r == nv12_size(width as nat, height as nat),
{
    assert(width * height <= width * height * 3) by (nonlinear_arith);
    (width as usize * height as usize * 3) / 2
}

/// The duration of a frame, at a rate given as a ratio.
pub fn frame_duration(fps_num: u32, fps_den: u32) -> (r: i64)
    requires
        fps_num > 0,
    ensures
        r == (10_000_000 * fps_den as int) / fps_num as int,
{
    10_000_000i64 * fps_den as i64 / fps_num as i64
}

/// Why a raw picture file cannot be written.
#[derive(Debug, Clone, Copy, PartialEq, Eq, Structural)]
pub struct FrameError {
    pub size: usize,
    pub width: u32,
    pub height: u32,
    pub frame_len: usize,
}

impl FrameError {
    /// The message of the error.
    pub fn message(&self) -> (r: String)
        ensures
            r@ == "raw video size "@ + decimal(self.size as nat) + " is not a whole number of "@
                + decimal(self.width as nat) + "x"@ + decimal(self.height as nat)
                + " NV12 frames ("@ + decimal(self.frame_len as nat) + " bytes each)"@,
    {
        let mut m = "raw video size ".to_owned();
        m.append(decimal_text(self.size as u64).as_str());
        m.append(" is not a whole number of ");
        m.append(decimal_text(self.width as u64).as_str());
        m.append("x");
        m.append(decimal_text(self.height as u64).as_str());
        m.append(" NV12 frames (");
        m.append(decimal_text(self.frame_len as u64).as_str());
        m.append(" bytes each)");
        m
    }
}

/// How many frames a raw picture file of some size has.
pub fn count_frames(size: usize, width: u32, height: u32) -> (r: Result<usize, FrameError>)
    requires
        width * height * 3 <= usize::MAX,
    ensures
        ({
            let frame_len = nv12_size(width as nat, height as nat);
            match r {
                Ok(n) => frame_len > 0 && n * frame_len == size,
                Err(e) => {
                    &&& frame_len == 0 || size as nat % frame_len != 0
                    &&& e.size == size
                    &&& e.width == width
                    &&& e.height == height
                    &&& e.frame_len == frame_len
                },
            }
        }),
{
    let frame_len: usize = nv12_frame_len(width, height);
    if frame_len == 0 || size % frame_len != 0 {
        return Err(FrameError { size, width, height, frame_len });
    }
    let n: usize = size / frame_len;
    assert(n * frame_len == size) by (nonlinear_arith)
        requires
            n == size / frame_len,
            size % frame_len == 0,
            frame_len > 0,
    ;
    Ok(n)
}

/// The sample of a frame.
pub fn frame_sample(i: usize, frame_len: usize, frame_100ns: i64) -> (r: Sample)
    requires
        (i + 1) * frame_len <= usize::MAX,
        0 <= frame_100ns,
        i * frame_100ns <= i64::MAX,
        i <= i64::MAX,
    ensures
        r.start == i * frame_len,
        r.len == frame_len,
        r.time == i * frame_100ns,
        r.duration == frame_100ns,
{
    assert(i * frame_len <= (i + 1) * frame_len) by (nonlinear_arith);
    assert(0 <= i * frame_100ns) by (nonlinear_arith)
        requires
            0 <= frame_100ns,
    ;
    Sample {
        start: i * frame_len,
        len: frame_len,
        time: i as i64 * frame_100ns,
        duration: frame_100ns,
    }
}

// ---- sound ----------------------------------------------------------------

/// The bytes of one sample of all channels.
pub open spec fn block_size(wav: Wav) -> nat {
    wav.channels as nat * (wav.bits_per_sample / 8) as nat
}

/// What a file that was read keeps to.
pub open spec fn is_sound(wav: Wav) -> bool {
    &&& wav.data@.len() <= u32::MAX
    &&& 0 < wav.channels <= u16::MAX
    &&& 0 < wav.bits_per_sample <= u16::MAX
    &&& 0 < wav.sample_rate
}

/// The bytes of one sample of all channels.
pub fn block_align(wav: &Wav) -> (r: u32)
    requires
        is_sound(*wav),
    ensures
        r == block_size(*wav),
{
    assert(wav.channels * (wav.bits_per_sample / 8) <= 65535 * 8191) by (nonlinear_arith)
        requires
            wav.channels <= 65535,
            wav.bits_per_sample <= 65535,
    ;
    wav.channels * (wav.bits_per_sample / 8)
}

/// How many samples of all channels the sound has; none where a block has no
/// bytes.
pub fn count_blocks(wav: &Wav) -> (r: Option<usize>)
    requires
        is_sound(*wav),
    ensures
        match r {
            Some(n) => block_size(*wav) > 0 && n == wav.data@.len() / block_size(*wav),
            None => block_size(*wav) == 0,
        },
{
    let align: u32 = block_align(wav);
    if align == 0 {
        return None;
    }
    Some(wav.data.len() / align as usize)
}

/// The length of a chunk of sound that begins at a block: a tenth of a second,
/// or what is left.
pub open spec fn chunk_blocks(at: nat, total: nat, sample_rate: nat) -> nat {
    let most = if sample_rate / 10 == 0 {
        1
    } else {
        sample_rate / 10
    };
    if total - at < most {
        (total - at) as nat
    } else {
        most
    }
}

/// The sample of the chunk that begins at a block, and the block behind it.
pub fn sound_chunk(wav: &Wav, at: usize, total: usize) -> (r: (Sample, usize))
    requires
        is_sound(*wav),
        block_size(*wav) > 0,
        at < total,
        total * block_size(*wav) <= wav.data.len(),
    ensures
        ({
            let n = chunk_blocks(at as nat, total as nat, wav.sample_rate as nat);
            let (sample, next) = r;
            &&& 0 < n
            &&& next == at + n
            &&& next <= total
            &&& sample.start == at * block_size(*wav)
            &&& sample.len == n * block_size(*wav)
            &&& sample.start + sample.len <= wav.data@.len()
            &&& sample.time == (at * 10_000_000) / wav.sample_rate as int
            &&& sample.duration == (n as int * 10_000_000) / wav.sample_rate as int
        }),
{
    let align: usize = block_align(wav) as usize;
    let tenth: u32 = wav.sample_rate / 10;
    let most: usize = if tenth == 0 {
        1
    } else {
        tenth as usize
    };
    let left: usize = total - at;
    let n: usize = if left < most {
        left
    } else {
        most
    };
    proof {
        assert(total <= total * align) by (nonlinear_arith)
            requires
                align > 0,
        ;
        assert((at + n) * align <= total * align) by (nonlinear_arith)
            requires
                at + n <= total,
        ;
        assert((at + n) * align == at * align + n * align) by (nonlinear_arith);
        assert(0 <= at * align && 0 <= n * align) by (nonlinear_arith);
        assert(wav.data.len() <= u32::MAX);
    }
    let rate: i64 = wav.sample_rate as i64;
    let sample = Sample {
        start: at * align,
        len: n * align,
        time: at as i64 * 10_000_000 / rate,
        duration: n as i64 * 10_000_000 / rate,
    };
    (sample, at + n)
}

/// How many blocks the chunks from a block on have in all.
pub open spec fn blocks_written(at: nat, total: nat, sample_rate: nat) -> nat
    decreases total - at,
{
    if at < total {
        let n = chunk_blocks(at, total, sample_rate);
        n + blocks_written(at + n, total, sample_rate)
    } else {
        0
    }
}

/// The chunks of a sound hold every block of it, each once.
pub proof fn law_chunks_cover_the_sound(at: nat, total: nat, sample_rate: nat)
    requires
        at <= total,
    ensures
        at + blocks_written(at, total, sample_rate) == total,
    decreases total - at,
{
    if at < total {
        law_chunks_cover_the_sound(
            at + chunk_blocks(at, total, sample_rate),
            total,
            sample_rate,
        );
    }
}

/// How sound is described to an encoder.
#[derive(Debug, Clone, Copy, PartialEq, Eq, Structural)]
pub struct PcmFormat {
    pub sample_rate: u32,
    pub channels: u32,
    pub bits_per_sample: u32,
    pub block_align: u32,
    pub bytes_per_second: u32,
}

/// How the sound of a file is described.
pub fn pcm_format(wav: &Wav) -> (r: PcmFormat)
    requires
        is_sound(*wav),
        wav.sample_rate * block_size(*wav) <= u32::MAX,
    ensures
        r.sample_rate == wav.sample_rate,
        r.channels == wav.channels,
        r.bits_per_sample == wav.bits_per_sample,
        r.block_align == block_size(*wav),
        r.bytes_per_second == wav.sample_rate * block_size(*wav),
{
    let align: u32 = block_align(wav);
    PcmFormat {
        sample_rate: wav.sample_rate,
        channels: wav.channels,
        bits_per_sample: wav.bits_per_sample,
        block_align: align,
        bytes_per_second: wav.sample_rate * align,
    }
}

// ---- the WMA format -------------------------------------------------------

/// A format that the encoder offers.
#[derive(Debug, Clone, Copy, PartialEq, Eq, Structural)]
pub struct WmaFormat {
    pub sample_rate: u32,
    pub channels: u32,
    pub bytes_per_second: u32,
}

/// How far a format is from a bitrate.
pub open spec fn distance(f: WmaFormat, kbps: u32) -> int {
    let d = f.bytes_per_second - (kbps * 1000) / 8;
    if d < 0 {
        -d
    } else {
        d
    }
}

/// Whether a format has the sample rate and the channels of the sound.
pub open spec fn fits(f: WmaFormat, sample_rate: u32, channels: u32) -> bool {
    f.sample_rate == sample_rate && f.channels == channels
}

/// Whether a format is the first of the nearest to a bitrate, among those that
/// fit or among all.
pub open spec fn is_nearest(
    v: Seq<WmaFormat>,
    i: int,
    kbps: u32,
    among: spec_fn(WmaFormat) -> bool,
) -> bool {
    &&& 0 <= i < v.len()
    &&& among(v[i])
    &&& forall|j: int|
        0 <= j < v.len() && among(#[trigger] v[j]) ==> distance(v[i], kbps) <= distance(
            v[j],
            kbps,
        ) && (j < i ==> distance(v[i], kbps) < distance(v[j], kbps))
}

fn distance_to(f: &WmaFormat, kbps: u32) -> (r: i64)
    ensures
        r == distance(*f, kbps),
{
    let target: i64 = kbps as i64 * 1000 / 8;
    let d: i64 = f.bytes_per_second as i64 - target;
    if d < 0 {
        -d
    } else {
        d
    }
}

/// Picks a format: the nearest in bitrate of those that fit the sound, else the
/// nearest of all. There is none where the encoder offers none.
pub fn pick_wma_output_type(
    offered: &[WmaFormat],
    abitrate_kbps: u32,
    sample_rate: u32,
    channels: u32,
) -> (r: Option<usize>)
    ensures
        r is None <==> offered@.len() == 0,
        r matches Some(i) ==> if exists|j: int|
            0 <= j < offered@.len() && fits(#[trigger] offered@[j], sample_rate, channels) {
            is_nearest(
                offered@,
                i as int,
                abitrate_kbps,
                |f: WmaFormat| fits(f, sample_rate, channels),
            )
        } else {
            is_nearest(offered@, i as int, abitrate_kbps, |f: WmaFormat| true)
        },
{
    let mut best: Option<(usize, i64)> = None;
    let mut best_any: Option<(usize, i64)> = None;
    let ghost fit = |f: WmaFormat| fits(f, sample_rate, channels);
    let ghost any = |f: WmaFormat| true;
    let mut i: usize = 0;
    while i < offered.len()
        invariant
            i <= offered@.len(),
            fit == (|f: WmaFormat| fits(f, sample_rate, channels)),
            any == (|f: WmaFormat| true),
            match best {
                Some((b, d)) => b < i && d == distance(offered@[b as int], abitrate_kbps)
                    && is_nearest(offered@.take(i as int), b as int, abitrate_kbps, fit),
                None => forall|j: int|
                    0 <= j < i ==> !fits(#[trigger] offered@[j], sample_rate, channels),
            },
            match best_any {
                Some((b, d)) => b < i && d == distance(offered@[b as int], abitrate_kbps)
                    && is_nearest(offered@.take(i as int), b as int, abitrate_kbps, any),
                None => i == 0,
            },
        decreases offered@.len() - i,
    {
        let f = &offered[i];
        let d: i64 = distance_to(f, abitrate_kbps);
        let ghost seen = offered@.take(i + 1);
        assert(seen[i as int] == *f);
        assert(forall|j: int| 0 <= j < i ==> seen[j] == offered@.take(i as int)[j]);
        let nearer_any = match best_any {
            Some((_, e)) => d < e,
            None => true,
        };
        if nearer_any {
            best_any = Some((i, d));
        }
        if f.sample_rate == sample_rate && f.channels == channels {
            let nearer = match best {
                Some((_, e)) => d < e,
                None => true,
            };
            if nearer {
                best = Some((i, d));
            }
        }
        i = i + 1;
    }
    assert(offered@.take(offered@.len() as int) =~= offered@);
    match best {
        Some((b, _)) => {
            assert(fits(offered@[b as int], sample_rate, channels));
            Some(b)
        },
        None => match best_any {
            Some((b, _)) => Some(b),
            None => None,
        },
    }
}

// ---- laws -----------------------------------------------------------------

/// The helper reads from the command line of a WMV9 encode every value that went
/// into it, each under its own name.
pub proof fn law_helper_gets_its_values(
    q: Wmv9Request,
    nv12: Seq<char>,
    wav: Seq<char>,
    output: Seq<char>,
    words: &[String],
    fractions: &[bool],
    r: Result<HelperArgs, ArgsError>,
)
    requires
        texts(words@) == helper_args(q, nv12, wav, output),
        fractions@.len() == words@.len(),
        fractions@[7],
        call_ensures(parse_args, (words, fractions), r),
    ensures
        r matches Ok(a) && {
            &&& a.video@ == nv12
            &&& a.audio@ == wav
            &&& a.output@ == output
            &&& a.width == q.width
            &&& a.height == q.height
            &&& a.fps@ == q.fps
            &&& a.vbitrate_kbps == q.video_kbps
            &&& a.abitrate_kbps == q.audio_kbps
        },
{
    assert(texts(words@).len() == words@.len());
    law_helper_reads_the_adapters_command_line(q, nv12, wav, output, fractions@);
}

/// A command line that starts with a call for help is answered with help, one
/// that starts with another word is refused with that word, and one without a word
/// lacks its first option.
pub proof fn law_unknown_words_are_refused(
    words: &[String],
    fractions: &[bool],
    r: Result<HelperArgs, ArgsError>,
)
    requires
        fractions@.len() == words@.len(),
        call_ensures(parse_args, (words, fractions), r),
    ensures
        words@.len() == 0 ==> (r matches Err(ArgsError::MissingOption(o)) && o@ == "--video"@),
        words@.len() > 0 ==> {
            let w = words@[0]@;
            let known = w == "--video"@ || w == "--width"@ || w == "--height"@ || w == "--fps"@ || w
                == "--vbitrate"@ || w == "--audio"@ || w == "--abitrate"@ || w == "--output"@;
            let help = w == "-h"@ || w == "--help"@;
            &&& help ==> (r matches Err(ArgsError::Help))
            &&& !help && !known ==> (r matches Err(ArgsError::Unknown(s)) && s@ == w)
            &&& known && words@.len() == 1 ==> (r matches Err(ArgsError::MissingValue(s)) && s@
                == w)
        },
{
    lemma_options_differ();
    let t = texts(words@);
    assert(t.len() == words@.len());
    if words@.len() > 0 {
        let w = words@[0]@;
        assert(t[0] == w);
        assert(is_option(w) ==> w != "-h"@ && w != "--help"@);
        let g = given_from(t, fractions@, 0, nothing_given());
        if w == "-h"@ || w == "--help"@ {
            assert(g == Err::<Given, ArgsFault>(ArgsFault::Help));
            assert(r->Err_0@ == ArgsFault::Help);
        } else if !is_option(w) {
            assert(g == Err::<Given, ArgsFault>(ArgsFault::Unknown(w)));
            assert(r->Err_0@ == ArgsFault::Unknown(w));
        } else if words@.len() == 1 {
            assert(g == Err::<Given, ArgsFault>(ArgsFault::MissingValue(w)));
            assert(r->Err_0@ == ArgsFault::MissingValue(w));
        }
    }
}

/// A value that is not a number is refused where its option takes one, with the
/// value.
pub proof fn law_bad_numbers_are_refused(
    words: &[String],
    fractions: &[bool],
    r: Result<HelperArgs, ArgsError>,
)
    requires
        fractions@.len() == words@.len(),
        call_ensures(parse_args, (words, fractions), r),
        words@.len() >= 2,
    ensures
        ({
            let w = words@[0]@;
            let v = words@[1]@;
            &&& (w == "--width"@ || w == "--height"@ || w == "--vbitrate"@ || w == "--abitrate"@)
                && number_in(v, 10, 0xffff_ffff) is None ==> (
            r matches Err(ArgsError::BadNumber(s)) && s@ == v)
            &&& w == "--fps"@ && !fractions@[1] ==> (r matches Err(ArgsError::BadNumber(s)) && s@
                == v)
        }),
{
    lemma_options_differ();
    let t = texts(words@);
    assert(t.len() == words@.len());
    assert(t[0] == words@[0]@ && t[1] == words@[1]@);
    let w = t[0];
    let v = t[1];
    let g = given_from(t, fractions@, 0, nothing_given());
    if is_option(w) && with_option(nothing_given(), w, v, fractions@[1]) is Err {
        assert(g == Err::<Given, ArgsFault>(ArgsFault::BadNumber(v)));
        assert(r->Err_0@ == ArgsFault::BadNumber(v));
    }
}

/// An NV12 frame has three bytes for every two pixels, and the time of a frame is
/// what its rate leaves of a second, both rounded down.
pub proof fn law_frames_are_measured(
    width: u32,
    height: u32,
    len: usize,
    num: u32,
    den: u32,
    time: i64,
)
    requires
        call_ensures(nv12_frame_len, (width, height), len),
        call_ensures(frame_duration, (num, den), time),
        num > 0,
    ensures
        2 * len <= 3 * (width * height) < 2 * len + 2,
        time * num <= 10_000_000 * den < (time + 1) * num,
{
    assert(width * height * 3 == 3 * (width * height)) by (nonlinear_arith);
    let a = 10_000_000 * den as int;
    let n = num as int;
    assert((a / n) * n <= a < (a / n + 1) * n) by (nonlinear_arith)
        requires
            n > 0,
    ;
}

/// A raw picture file is taken exactly where it is a whole number of frames, and
/// that number is found.
pub proof fn law_only_whole_frames_are_taken(
    size: usize,
    width: u32,
    height: u32,
    len: usize,
    n: usize,
    r: Result<usize, FrameError>,
)
    requires
        call_ensures(nv12_frame_len, (width, height), len),
        call_ensures(count_frames, (size, width, height), r),
    ensures
        r matches Ok(m) ==> len > 0 && m * len == size,
        len > 0 && n * len == size ==> r == Ok::<usize, FrameError>(n),
        r matches Err(e) ==> e.size == size && e.width == width && e.height == height && e.frame_len
            == len,
{
    if len > 0 && n * len == size {
        assert(size as nat % len as nat == 0) by (nonlinear_arith)
            requires
                n * len == size,
                len > 0,
        ;
        if let Ok(m) = r {
            assert(m == n) by (nonlinear_arith)
                requires
                    m * len == n * len,
                    len > 0,
            ;
        }
    }
}

/// The frames follow one another without a gap, in the file and in time, from the
/// start of both.
pub proof fn law_frames_follow_one_another(
    i: usize,
    len: usize,
    time: i64,
    here: Sample,
    next: Sample,
    first: Sample,
)
    requires
        i < usize::MAX,
        call_ensures(frame_sample, (i, len, time), here),
        call_ensures(frame_sample, ((i + 1) as usize, len, time), next),
        call_ensures(frame_sample, (0usize, len, time), first),
    ensures
        first.start == 0 && first.time == 0,
        next.start == here.start + here.len,
        next.time == here.time + here.duration,
        here.len == len && here.duration == time,
{
    assert((i + 1) * len == i * len + len) by (nonlinear_arith);
    assert((i + 1) * time == i * time + time) by (nonlinear_arith);
    assert(0 * len == 0 && 0 * time == 0);
}

/// The chunks of a sound follow one another without a gap in the file, each as
/// long as a tenth of a second at most (a block at least), and each is told at the
/// time of its first block.
pub proof fn law_chunks_follow_one_another(
    wav: Wav,
    at: usize,
    total: usize,
    r: (Sample, usize),
    s: (Sample, usize),
)
    requires
        is_sound(wav),
        block_size(wav) > 0,
        at < total,
        total * block_size(wav) <= wav.data@.len(),
        call_ensures(sound_chunk, (&wav, at, total), r),
        r.1 < total,
        call_ensures(sound_chunk, (&wav, r.1, total), s),
    ensures
        at < r.1,
        s.0.start == r.0.start + r.0.len,
        (r.1 - at) * 10 <= wav.sample_rate || r.1 - at == 1,
        (r.1 - at + 1) * 10 > wav.sample_rate,
        r.0.start == at * (wav.channels * (wav.bits_per_sample as int / 8)),
        r.0.time * wav.sample_rate <= at * 10_000_000 < (r.0.time + 1) * wav.sample_rate,
        r.0.duration * wav.sample_rate <= (r.1 - at) * 10_000_000 < (r.0.duration + 1)
            * wav.sample_rate,
{
    let b = block_size(wav) as int;
    let n = r.1 - at;
    let rate = wav.sample_rate as int;
    assert((at + n) * b == at * b + n * b) by (nonlinear_arith);
    let x = at * 10_000_000;
    let y = n * 10_000_000;
    assert((x / rate) * rate <= x < (x / rate + 1) * rate) by (nonlinear_arith)
        requires
            rate > 0,
    ;
    assert((y / rate) * rate <= y < (y / rate + 1) * rate) by (nonlinear_arith)
        requires
            rate > 0,
    ;
}

/// The last chunk of a sound ends where the sound does.
pub proof fn law_the_last_chunk_ends_the_sound(
    wav: Wav,
    at: usize,
    total: usize,
    r: (Sample, usize),
)
    requires
        is_sound(wav),
        block_size(wav) > 0,
        at < total,
        total * block_size(wav) <= wav.data@.len(),
        call_ensures(sound_chunk, (&wav, at, total), r),
    ensures
        r.1 <= total,
        (total - at) * 10 <= wav.sample_rate ==> r.1 == total,
{
}

/// Sound is described as it was read: its rate, its channels and its depth, the
/// bytes of a block and of a second; and its blocks are as many as fit.
pub proof fn law_sound_is_described_as_read(
    wav: Wav,
    r: PcmFormat,
    align: u32,
    blocks: Option<usize>,
)
    requires
        is_sound(wav),
        wav.sample_rate * block_size(wav) <= u32::MAX,
        call_ensures(pcm_format, (&wav,), r),
        call_ensures(block_align, (&wav,), align),
        call_ensures(count_blocks, (&wav,), blocks),
    ensures
        r.sample_rate == wav.sample_rate,
        r.channels == wav.channels,
        r.bits_per_sample == wav.bits_per_sample,
        r.block_align == align,
        align == wav.channels * (wav.bits_per_sample as int / 8),
        r.bytes_per_second == wav.sample_rate * align,
        blocks is None <==> align == 0,
        blocks matches Some(n) ==> n * align <= wav.data@.len() < (n + 1) * align,
{
    if let Some(n) = blocks {
        let d = wav.data@.len() as int;
        let b = align as int;
        assert((d / b) * b <= d < (d / b + 1) * b) by (nonlinear_arith)
            requires
                b > 0,
        ;
    }
}

/// The format that is picked has the rate and the channels of the sound wherever
/// some format on offer has, and of those, or else of all, none is nearer to the
/// bitrate; of two that are as near, the first is picked.
pub proof fn law_the_nearest_format_is_picked(
    offered: &[WmaFormat],
    kbps: u32,
    rate: u32,
    channels: u32,
    r: Option<usize>,
    j: int,
)
    requires
        call_ensures(pick_wma_output_type, (offered, kbps, rate, channels), r),
        0 <= j < offered@.len(),
    ensures
        r matches Some(i) && {
            let a = offered@[i as int];
            let b = offered@[j];
            let fit = a.sample_rate == rate && a.channels == channels;
            let target = 125 * kbps;
            let far_a = if a.bytes_per_second >= target {
                a.bytes_per_second - target
            } else {
                target - a.bytes_per_second
            };
            let far_b = if b.bytes_per_second >= target {
                b.bytes_per_second - target
            } else {
                target - b.bytes_per_second
            };
            &&& i < offered@.len()
            &&& b.sample_rate == rate && b.channels == channels ==> fit && far_a <= far_b && (j < i
                ==> far_a < far_b)
            &&& !fit ==> far_a <= far_b && (j < i ==> far_a < far_b)
        },
{
    let i = r->0 as int;
    assert((kbps * 1000) / 8 == 125 * kbps);
    if fits(offered@[j], rate, channels) {
        assert(exists|k: int| 0 <= k < offered@.len() && fits(#[trigger] offered@[k], rate, channels));
    }
    if !fits(offered@[i], rate, channels) {
        if exists|k: int| 0 <= k < offered@.len() && fits(#[trigger] offered@[k], rate, channels) {
            let among = |f: WmaFormat| fits(f, rate, channels);
            assert(among(offered@[i]));
        }
        let all = |f: WmaFormat| true;
        assert(all(offered@[j]));
    } else {
        let among = |f: WmaFormat| fits(f, rate, channels);
        assert(exists|k: int| 0 <= k < offered@.len() && fits(#[trigger] offered@[k], rate, channels));
        if fits(offered@[j], rate, channels) {
            assert(among(offered@[j]));
        }
    }
}

/// Of the options that a command line lacks, the first in the order of the usage
/// is named.
pub proof fn law_the_first_missing_option_is_named(
    words: &[String],
    fractions: &[bool],
    g: Given,
    r: Result<HelperArgs, ArgsError>,
)
    requires
        fractions@.len() == words@.len(),
        call_ensures(parse_args, (words, fractions), r),
        given_from(texts(words@), fractions@, 0, nothing_given()) == Ok::<Given, ArgsFault>(g),
    ensures
        r is Ok <==> g.video is Some && g.width is Some && g.height is Some && g.fps is Some
            && g.vbitrate is Some && g.audio is Some && g.abitrate is Some && g.output is Some,
        r matches Err(e) ==> (e matches ArgsError::MissingOption(o) && {
            &&& o@ == "--video"@ <==> g.video is None
            &&& o@ == "--width"@ ==> g.width is None
            &&& o@ == "--height"@ ==> g.height is None && g.width is Some
            &&& o@ == "--fps"@ ==> g.fps is None && g.width is Some && g.height is Some
            &&& o@ == "--vbitrate"@ ==> g.vbitrate is None && g.fps is Some
            &&& o@ == "--audio"@ ==> g.audio is None && g.vbitrate is Some
            &&& o@ == "--abitrate"@ ==> g.abitrate is None && g.audio is Some
            &&& o@ == "--output"@ ==> g.output is None && g.abitrate is Some
        }),
{
    lemma_options_differ();
}

/// A later value of an option takes the place of an earlier one: what stands
/// before an option does not matter to it.
pub proof fn law_later_values_count(
    known: Given,
    option: Seq<char>,
    first: Seq<char>,
    second: Seq<char>,
    mid: Given,
)
    requires
        is_option(option),
        with_option(known, option, first, true) == Ok::<Given, ArgsFault>(mid),
    ensures
        with_option(mid, option, second, true) == with_option(known, option, second, true),
{
    lemma_options_differ();
}

/// Frames that do not come out even are told with every number of the reckoning.
pub proof fn law_uneven_frames_are_told(e: FrameError, r: String)
    requires
        call_ensures(FrameError::message, (&e,), r),
    ensures
        r@ == "raw video size "@ + decimal(e.size as nat) + " is not a whole number of "@ + decimal(
            e.width as nat,
        ) + "x"@ + decimal(e.height as nat) + " NV12 frames ("@ + decimal(e.frame_len as nat)
            + " bytes each)"@,
{
}

} // verus!
