//! What the commands print, line by line.

use crate::adapters::{group_command_lines, has_word, lemma_word_at, EncoderAdapter};
use crate::binaries::BinaryPaths;
use crate::manifest::{StatusText, VerificationResult, VerificationStatus};
use crate::probe::{AudioInfo, AudioStream, VideoInfo, VideoStream};
use crate::resolver::ResolvedCapabilities;
use crate::text::{
    chars_of, decimal, decimal_text, join, join_texts, lines, literal_texts, opt_text, push_text,
    slice_range, split_lines, text_of, texts, trim_end, trim_start, trimmed,
};
use crate::text_map::TextMap;
use vstd::prelude::*;
use vstd::string::*;

verus! {

// ---- lines ----------------------------------------------------------------

/// A line where there is a text for it.
pub open spec fn line_if(front: Seq<char>, text: Option<Seq<char>>) -> Seq<Seq<char>> {
    match text {
        Some(t) => seq![front + t],
        None => Seq::empty(),
    }
}

/// A line where there is a number for it.
pub open spec fn number_line(front: Seq<char>, n: Option<nat>, back: Seq<char>) -> Seq<Seq<char>> {
    match n {
        Some(x) => seq![front + decimal(x) + back],
        None => Seq::empty(),
    }
}

/// An optional 32-bit number.
pub open spec fn wide(n: Option<u32>) -> Option<nat> {
    match n {
        Some(x) => Some(x as nat),
        None => None,
    }
}

/// An optional 8-bit number.
pub open spec fn wide_byte(n: Option<u8>) -> Option<nat> {
    match n {
        Some(x) => Some(x as nat),
        None => None,
    }
}

fn push_line(out: &mut Vec<String>, front: &str, text: &str)
    ensures
        texts(final(out)@) == texts(old(out)@).push(front@ + text@),
{
    let mut m = front.to_owned();
    m.append(text);
    push_text(out, m.as_str());
}

fn push_line_if(out: &mut Vec<String>, front: &str, text: &Option<String>)
    ensures
        texts(final(out)@) == texts(old(out)@) + line_if(front@, opt_text(*text)),
{
    if let Some(t) = text {
        push_line(out, front, t.as_str());
    }
    assert(texts(out@) =~= texts(old(out)@) + line_if(front@, opt_text(*text)));
}

fn push_number_line(out: &mut Vec<String>, front: &str, n: Option<u32>, back: &str)
    ensures
        texts(final(out)@) == texts(old(out)@) + number_line(front@, wide(n), back@),
{
    if let Some(x) = n {
        let mut m = front.to_owned();
        m.append(decimal_text(x as u64).as_str());
        m.append(back);
        push_text(out, m.as_str());
    }
    assert(texts(out@) =~= texts(old(out)@) + number_line(front@, wide(n), back@));
}

fn from_byte(n: Option<u8>) -> (r: Option<u32>)
    ensures
        wide(r) == wide_byte(n),
{
    match n {
        Some(x) => Some(x as u32),
        None => None,
    }
}

// ---- probing --------------------------------------------------------------

/// The tags of a file, a line each under a heading.
pub open spec fn tag_lines(tags: Seq<(Seq<char>, Seq<char>)>) -> Seq<Seq<char>> {
    if tags.len() == 0 {
        Seq::empty()
    } else {
        seq!["tags:"@] + Seq::new(tags.len(), |i: int| "  "@ + tags[i].0 + ": "@ + tags[i].1)
    }
}

/// Present or absent.
pub open spec fn presence(there: bool) -> Seq<char> {
    if there {
        "present"@
    } else {
        "absent"@
    }
}

/// The facts of an audio file up to its bitrate. `duration` is its duration,
/// written out.
pub open spec fn audio_head(a: AudioInfo, duration: Option<Seq<char>>) -> Seq<Seq<char>> {
    seq!["path:        "@ + a.path@, "type:        audio"@, "container:   "@ + a.container@, "codec:       "@
        + a.codec@] + number_line("sample rate: "@, wide(a.sample_rate_hz), " Hz"@) + number_line(
        "channels:    "@,
        wide_byte(a.channels),
        Seq::empty(),
    ) + number_line("bit depth:   "@, wide(a.bits_per_sample), Seq::empty()) + line_if(
        "duration:    "@,
        duration,
    ) + number_line("bitrate:     ~"@, wide(a.bitrate_kbps), " kbps"@)
}

/// The facts of an audio file from its artwork on.
pub open spec fn audio_tail(a: AudioInfo) -> Seq<Seq<char>> {
    seq!["artwork:     "@ + presence(a.has_artwork)] + line_if(
        "profile:     "@,
        opt_text(a.profile),
    ) + seq![
        match a.priming_samples {
            Some(n) => "priming:     "@ + decimal(n as nat) + " samples"@,
            None => "priming:     unknown"@,
        },
        "chapters:    "@ + presence(a.has_chapters),
    ] + tag_lines(a.tags@)
}

fn push_tag_lines(out: &mut Vec<String>, tags: &TextMap)
    ensures
        texts(final(out)@) == texts(old(out)@) + tag_lines(tags@),
{
    let ghost start = texts(out@);
    if tags.is_empty() {
        assert(texts(out@) =~= start + tag_lines(tags@));
        return;
    }
    push_text(out, "tags:");
    let entries = &tags.entries;
    let ghost all = tag_lines(tags@);
    let mut i: usize = 0;
    assert(texts(out@) =~= start + all.take(1));
    while i < entries.len()
        invariant
            i <= entries@.len(),
            *entries == tags.entries,
            tags@.len() > 0,
            all == tag_lines(tags@),
            texts(out@) == start + all.take(i + 1),
        decreases entries@.len() - i,
    {
        let e = &entries[i];
        let mut m = "  ".to_owned();
        m.append(e.key.as_str());
        m.append(": ");
        m.append(e.value.as_str());
        push_text(out, m.as_str());
        assert(tags@[i as int] == (e.key@, e.value@));
        i = i + 1;
        assert(all[i as int] == m@);
        assert(all.take(i + 1) =~= all.take(i as int).push(m@));
        assert(texts(out@) =~= start + all.take(i + 1));
    }
    assert(all.take(all.len() as int) =~= all);
}

/// What is printed of an audio file.
pub fn audio_lines(a: &AudioInfo, duration: &Option<String>) -> (r: Vec<String>)
    ensures
        texts(r@) == audio_head(*a, opt_text(*duration)) + audio_tail(*a),
{
    let mut out: Vec<String> = Vec::new();
    proof {
        reveal_strlit("");
    }
    push_line(&mut out, "path:        ", a.path.as_str());
    push_text(&mut out, "type:        audio");
    push_line(&mut out, "container:   ", a.container.as_str());
    push_line(&mut out, "codec:       ", a.codec.as_str());
    push_number_line(&mut out, "sample rate: ", a.sample_rate_hz, " Hz");
    push_number_line(&mut out, "channels:    ", from_byte(a.channels), "");
    push_number_line(&mut out, "bit depth:   ", a.bits_per_sample, "");
    push_line_if(&mut out, "duration:    ", duration);
    push_number_line(&mut out, "bitrate:     ~", a.bitrate_kbps, " kbps");
    assert(""@ =~= Seq::<char>::empty());
    assert(texts(out@) =~= audio_head(*a, opt_text(*duration)));
    push_audio_tail(&mut out, a);
    out
}

fn presence_text(there: bool) -> (r: &'static str)
    ensures
        r@ == presence(there),
{
    if there {
        "present"
    } else {
        "absent"
    }
}

fn push_audio_tail(out: &mut Vec<String>, a: &AudioInfo)
    ensures
        texts(final(out)@) == texts(old(out)@) + audio_tail(*a),
{
    let ghost start = texts(out@);
    push_line(out, "artwork:     ", presence_text(a.has_artwork));
    push_line_if(out, "profile:     ", &a.profile);
    match a.priming_samples {
        Some(n) => {
            let mut m = "priming:     ".to_owned();
            m.append(decimal_text(n).as_str());
            m.append(" samples");
            push_text(out, m.as_str());
        },
        None => push_text(out, "priming:     unknown"),
    }
    push_line(out, "chapters:    ", presence_text(a.has_chapters));
    push_tag_lines(out, &a.tags);
    assert(texts(out@) =~= start + audio_tail(*a));
}

/// The facts of a video stream. `fps` is its frame rate, written out.
pub open spec fn video_stream_lines(
    i: nat,
    s: VideoStream,
    fps: Option<Seq<char>>,
) -> Seq<Seq<char>> {
    seq![
        "video["@ + decimal(i) + "]:    "@ + s.codec@ + " "@ + decimal(s.width as nat) + "x"@
            + decimal(s.height as nat),
    ] + line_if("  fps:       "@, fps) + number_line(
        "  bitrate:   ~"@,
        wide(s.bitrate_kbps),
        " kbps"@,
    ) + line_if("  pixel fmt: "@, opt_text(s.pixel_format))
}

/// The facts of an audio stream.
pub open spec fn audio_stream_lines(i: nat, s: AudioStream) -> Seq<Seq<char>> {
    seq!["audio["@ + decimal(i) + "]:    "@ + s.codec@] + number_line(
        "  sample rate: "@,
        wide(s.sample_rate_hz),
        " Hz"@,
    ) + number_line("  channels:    "@, wide_byte(s.channels), Seq::empty()) + number_line(
        "  bitrate:     ~"@,
        wide(s.bitrate_kbps),
        " kbps"@,
    )
}

/// The facts of the first `n` video streams.
pub open spec fn video_streams_lines(
    v: Seq<VideoStream>,
    fps: Seq<Option<String>>,
    n: nat,
) -> Seq<Seq<char>>
    decreases n,
{
    if n == 0 {
        Seq::empty()
    } else {
        video_streams_lines(v, fps, (n - 1) as nat) + video_stream_lines(
            (n - 1) as nat,
            v[n - 1],
            opt_text(fps[n - 1]),
        )
    }
}

/// The facts of the first `n` audio streams.
pub open spec fn audio_streams_lines(v: Seq<AudioStream>, n: nat) -> Seq<Seq<char>>
    decreases n,
{
    if n == 0 {
        Seq::empty()
    } else {
        audio_streams_lines(v, (n - 1) as nat) + audio_stream_lines((n - 1) as nat, v[n - 1])
    }
}

fn push_video_stream(out: &mut Vec<String>, i: usize, s: &VideoStream, fps: &Option<String>)
    ensures
        texts(final(out)@) == texts(old(out)@) + video_stream_lines(
            i as nat,
            *s,
            opt_text(*fps),
        ),
{
    let ghost start = texts(out@);
    let mut m = "video[".to_owned();
    m.append(decimal_text(i as u64).as_str());
    m.append("]:    ");
    m.append(s.codec.as_str());
    m.append(" ");
    m.append(decimal_text(s.width as u64).as_str());
    m.append("x");
    m.append(decimal_text(s.height as u64).as_str());
    push_text(out, m.as_str());
    push_line_if(out, "  fps:       ", fps);
    push_number_line(out, "  bitrate:   ~", s.bitrate_kbps, " kbps");
    push_line_if(out, "  pixel fmt: ", &s.pixel_format);
    assert(texts(out@) =~= start + video_stream_lines(i as nat, *s, opt_text(*fps)));
}

fn push_audio_stream(out: &mut Vec<String>, i: usize, s: &AudioStream)
    ensures
        texts(final(out)@) == texts(old(out)@) + audio_stream_lines(i as nat, *s),
{
    let ghost start = texts(out@);
    proof {
        reveal_strlit("");
    }
    assert(""@ =~= Seq::<char>::empty());
    let mut m = "audio[".to_owned();
    m.append(decimal_text(i as u64).as_str());
    m.append("]:    ");
    m.append(s.codec.as_str());
    push_text(out, m.as_str());
    push_number_line(out, "  sample rate: ", s.sample_rate_hz, " Hz");
    push_number_line(out, "  channels:    ", from_byte(s.channels), "");
    push_number_line(out, "  bitrate:     ~", s.bitrate_kbps, " kbps");
    assert(texts(out@) =~= start + audio_stream_lines(i as nat, *s));
}

/// The facts of a video file.
pub open spec fn video_text(
    v: VideoInfo,
    duration: Option<Seq<char>>,
    fps: Seq<Option<String>>,
) -> Seq<Seq<char>> {
    seq!["path:        "@ + v.path@, "type:        video"@, "container:   "@ + v.container@]
        + line_if("duration:    "@, duration) + video_streams_lines(
        v.video_streams@,
        fps,
        v.video_streams@.len(),
    ) + audio_streams_lines(v.audio_streams@, v.audio_streams@.len()) + tag_lines(v.tags@)
}

proof fn lemma_joined(a: Seq<Seq<char>>, b: Seq<Seq<char>>, c: Seq<Seq<char>>)
    ensures
        a + b + c == a + (b + c),
{
    assert(a + b + c =~= a + (b + c));
}

/// What is printed of a video file. `fps` holds the frame rate of each stream,
/// written out.
pub fn video_lines(v: &VideoInfo, duration: &Option<String>, fps: &[Option<String>]) -> (r: Vec<
    String,
>)
    requires
        fps@.len() == v.video_streams@.len(),
    ensures
        texts(r@) == video_text(*v, opt_text(*duration), fps@),
{
    let mut out: Vec<String> = Vec::new();
    push_line(&mut out, "path:        ", v.path.as_str());
    push_text(&mut out, "type:        video");
    push_line(&mut out, "container:   ", v.container.as_str());
    push_line_if(&mut out, "duration:    ", duration);
    let ghost head = texts(out@);
    assert(head =~= seq!["path:        "@ + v.path@, "type:        video"@, "container:   "@
        + v.container@] + line_if("duration:    "@, opt_text(*duration)));
    let mut i: usize = 0;
    assert(head + video_streams_lines(v.video_streams@, fps@, 0) =~= head);
    while i < v.video_streams.len()
        invariant
            i <= v.video_streams@.len(),
            fps@.len() == v.video_streams@.len(),
            texts(out@) == head + video_streams_lines(v.video_streams@, fps@, i as nat),
        decreases v.video_streams@.len() - i,
    {
        push_video_stream(&mut out, i, &v.video_streams[i], &fps[i]);
        proof {
            lemma_joined(
                head,
                video_streams_lines(v.video_streams@, fps@, i as nat),
                video_stream_lines(i as nat, v.video_streams@[i as int], opt_text(fps@[i as int])),
            );
        }
        i = i + 1;
    }
    let ghost middle = texts(out@);
    let mut k: usize = 0;
    assert(middle + audio_streams_lines(v.audio_streams@, 0) =~= middle);
    while k < v.audio_streams.len()
        invariant
            k <= v.audio_streams@.len(),
            texts(out@) == middle + audio_streams_lines(v.audio_streams@, k as nat),
        decreases v.audio_streams@.len() - k,
    {
        push_audio_stream(&mut out, k, &v.audio_streams[k]);
        proof {
            lemma_joined(
                middle,
                audio_streams_lines(v.audio_streams@, k as nat),
                audio_stream_lines(k as nat, v.audio_streams@[k as int]),
            );
        }
        k = k + 1;
    }
    push_tag_lines(&mut out, &v.tags);
    out
}

// ---- verification ---------------------------------------------------------

/// What is printed of an outcome. `expected` and `found` are the durations of a
/// mismatch in seconds, written out.
pub open spec fn outcome_text(
    status: StatusText,
    path: Seq<char>,
    expected: Seq<char>,
    found: Seq<char>,
) -> Seq<char> {
    match status {
        StatusText::Intact => "  ok  "@ + path,
        StatusText::Missing => "  MISSING  "@ + path,
        StatusText::Empty => "  EMPTY  "@ + path,
        StatusText::Unreadable { error } => "  UNREADABLE  "@ + path + ": "@ + error,
        StatusText::ShapeMismatch { detail } => "  SHAPE MISMATCH  "@ + path + " ("@ + detail
            + ")"@,
        StatusText::DurationMismatch { .. } => "  DURATION MISMATCH  "@ + path + " (expected "@
            + expected + "s, got "@ + found + "s)"@,
        StatusText::OriginallyFailed { error } => "  ORIGINALLY FAILED  "@ + path + ": "@ + error,
        StatusText::CarriedForward => "  carried  "@ + path,
    }
}

/// What is printed of an outcome.
pub fn outcome_line(result: &VerificationResult, expected: &str, found: &str) -> (r: String)
    ensures
        r@ == outcome_text(result.status@, result.output_path@, expected@, found@),
{
    let front: &str = match &result.status {
        VerificationStatus::Intact => "  ok  ",
        VerificationStatus::Missing => "  MISSING  ",
        VerificationStatus::Empty => "  EMPTY  ",
        VerificationStatus::Unreadable { .. } => "  UNREADABLE  ",
        VerificationStatus::ShapeMismatch { .. } => "  SHAPE MISMATCH  ",
        VerificationStatus::DurationMismatch { .. } => "  DURATION MISMATCH  ",
        VerificationStatus::OriginallyFailed { .. } => "  ORIGINALLY FAILED  ",
        VerificationStatus::CarriedForward => "  carried  ",
    };
    let mut m = front.to_owned();
    m.append(result.output_path.as_str());
    match &result.status {
        VerificationStatus::Unreadable { error } => {
            m.append(": ");
            m.append(error.as_str());
        },
        VerificationStatus::ShapeMismatch { detail } => {
            m.append(" (");
            m.append(detail.as_str());
            m.append(")");
        },
        VerificationStatus::DurationMismatch { .. } => {
            m.append(" (expected ");
            m.append(expected);
            m.append("s, got ");
            m.append(found);
            m.append("s)");
        },
        VerificationStatus::OriginallyFailed { error } => {
            m.append(": ");
            m.append(error.as_str());
        },
        _ => {},
    }
    m
}

/// The last line of a verification.
pub fn counts_line(ok: usize, failed: usize) -> (r: String)
    ensures
        r@ == "\n"@ + decimal(ok as nat) + " ok, "@ + decimal(failed as nat) + " failed"@,
{
    let mut m = "\n".to_owned();
    m.append(decimal_text(ok as u64).as_str());
    m.append(" ok, ");
    m.append(decimal_text(failed as u64).as_str());
    m.append(" failed");
    m
}

/// What is printed of a graph that was written: its path, its size and the
/// beginning of its digest.
pub fn graph_line(path: &str, nodes: usize, hash: &str) -> (r: String)
    requires
        hash@.len() >= 16,
    ensures
        r@ == "graph written to "@ + path@ + " ("@ + decimal(nodes as nat) + " nodes, hash: "@
            + hash@.take(16) + ")"@,
{
    let v = chars_of(hash);
    let mut m = "graph written to ".to_owned();
    m.append(path);
    m.append(" (");
    m.append(decimal_text(nodes as u64).as_str());
    m.append(" nodes, hash: ");
    let short = text_of(slice_range(v.as_slice(), 0, 16));
    assert(short@ =~= hash@.take(16));
    m.append(short.as_str());
    m.append(")");
    m
}

// ---- hardware acceleration ------------------------------------------------

/// Whether a line names a method: it is neither blank nor a heading.
pub open spec fn is_method(line: Seq<char>) -> bool {
    line.len() > 0 && line.last() != ':'
}

/// The methods that some lines name, without the white space around them.
pub open spec fn methods_in(v: Seq<Seq<char>>) -> Seq<Seq<char>>
    decreases v.len(),
{
    if v.len() == 0 {
        Seq::empty()
    } else {
        let line = trim_end(trim_start(v.last()));
        if is_method(line) {
            methods_in(v.drop_last()).push(line)
        } else {
            methods_in(v.drop_last())
        }
    }
}

/// The methods in the output of `ffmpeg -hwaccels`.
pub fn hwaccel_methods(output: &str) -> (r: Vec<String>)
    ensures
        texts(r@) == methods_in(lines(output@)),
{
    let ls = split_lines(output);
    let ghost all = lines(output@);
    let mut out: Vec<String> = Vec::new();
    let mut i: usize = 0;
    assert(texts(out@) =~= methods_in(all.take(0)));
    while i < ls.len()
        invariant
            i <= ls@.len(),
            all == texts(ls@),
            texts(out@) == methods_in(all.take(i as int)),
        decreases ls@.len() - i,
    {
        let line = trimmed(ls[i].as_str());
        let cs = chars_of(line.as_str());
        proof {
            assert(all[i as int] == ls@[i as int]@);
            assert(all.take(i + 1).drop_last() =~= all.take(i as int));
            assert(all.take(i + 1).last() == ls@[i as int]@);
        }
        if cs.len() > 0 && cs[cs.len() - 1] != ':' {
            push_text(&mut out, line.as_str());
        }
        i = i + 1;
    }
    assert(all.take(all.len() as int) =~= all);
    out
}

// ---- checks ---------------------------------------------------------------

/// A text filled up with blanks on its right.
pub open spec fn padded(s: Seq<char>, width: nat) -> Seq<char>
    decreases width - s.len(),
{
    if s.len() < width {
        padded(s.push(' '), width)
    } else {
        s
    }
}

fn pad(s: &str, width: usize) -> (r: String)
    ensures
        r@ == padded(s@, width as nat),
{
    let mut out = s.to_owned();
    let mut n: usize = chars_of(s).len();
    while n < width
        invariant
            n == out@.len(),
            padded(out@, width as nat) == padded(s@, width as nat),
        decreases width - n,
    {
        out.push(' ');
        n = n + 1;
    }
    out
}

/// Where a tool is.
pub open spec fn tool_text(name: Seq<char>, path: Option<Seq<char>>) -> Seq<char> {
    "  "@ + padded(name, 12) + (match path {
        Some(p) => " found    "@ + p,
        None => " NOT FOUND"@,
    })
}

fn tool_line(name: &str, path: &Option<String>) -> (r: String)
    ensures
        r@ == tool_text(name@, opt_text(*path)),
{
    let mut m = "  ".to_owned();
    m.append(pad(name, 12).as_str());
    let ghost front = m@;
    match path {
        Some(p) => {
            m.append(" found    ");
            m.append(p.as_str());
            assert(m@ =~= front + (" found    "@ + p@));
        },
        None => {
            m.append(" NOT FOUND");
        },
    }
    m
}

/// An adapter that is there, with the codecs it produces.
pub open spec fn adapter_text(name: Seq<char>, codecs: Seq<Seq<char>>) -> Seq<char> {
    "  "@ + name + ": available ("@ + join(codecs, ", "@) + ")"@
}

fn adapter_line<A: EncoderAdapter>(name: &str, adapter: &A) -> (r: String)
    ensures
        r@ == adapter_text(name@, adapter.codecs()),
{
    let codecs = adapter.supported_output_codecs();
    let mut list: Vec<String> = Vec::new();
    let mut i: usize = 0;
    let ghost all = adapter.codecs();
    assert(texts(list@) =~= all.take(0));
    while i < codecs.len()
        invariant
            i <= codecs@.len(),
            literal_texts(codecs@) == all,
            texts(list@) == all.take(i as int),
        decreases codecs@.len() - i,
    {
        assert(literal_texts(codecs@)[i as int] == codecs@[i as int]@);
        push_text(&mut list, codecs[i]);
        i = i + 1;
        assert(all.take(i as int) =~= all.take(i - 1).push(all[i - 1]));
    }
    assert(all.take(all.len() as int) =~= all);
    let mut m = "  ".to_owned();
    m.append(name);
    m.append(": available (");
    m.append(join_texts(list.as_slice(), ", ").as_str());
    m.append(")");
    m
}

/// The adapters that are there, and which of the two common ones are not.
pub open spec fn adapter_lines(caps: ResolvedCapabilities) -> Seq<Seq<char>> {
    (match caps.ffmpeg {
        Some(a) => seq![adapter_text("ffmpeg"@, a.codecs())],
        None => Seq::empty(),
    }) + (match caps.atrac {
        Some(a) => seq![adapter_text("atrac"@, a.codecs())],
        None => Seq::empty(),
    }) + (match caps.wmv9 {
        Some(a) => seq![adapter_text("wmv9"@, a.codecs())],
        None => Seq::empty(),
    }) + (if caps.ffmpeg is None {
        seq!["  ffmpeg: not available"@]
    } else {
        Seq::empty()
    }) + (if caps.atrac is None {
        seq!["  atrac: not available"@]
    } else {
        Seq::empty()
    })
}

/// What is printed of the tools and adapters of a machine.
pub open spec fn check_text(bins: BinaryPaths, caps: ResolvedCapabilities) -> Seq<Seq<char>> {
    seq![
        "Binaries:"@,
        tool_text("ffmpeg"@, opt_text(bins.ffmpeg)),
        tool_text("ffprobe"@, opt_text(bins.ffprobe)),
        tool_text("atracdenc"@, opt_text(bins.atracdenc)),
        "\nEncoder adapters:"@,
    ] + adapter_lines(caps)
}

/// What is printed of the tools and adapters of a machine.
pub fn check_lines(bins: &BinaryPaths, caps: &ResolvedCapabilities) -> (r: Vec<String>)
    ensures
        texts(r@) == check_text(*bins, *caps),
{
    let mut out: Vec<String> = Vec::new();
    push_text(&mut out, "Binaries:");
    push_text(&mut out, tool_line("ffmpeg", &bins.ffmpeg).as_str());
    push_text(&mut out, tool_line("ffprobe", &bins.ffprobe).as_str());
    push_text(&mut out, tool_line("atracdenc", &bins.atracdenc).as_str());
    push_text(&mut out, "\nEncoder adapters:");
    if let Some(a) = &caps.ffmpeg {
        push_text(&mut out, adapter_line("ffmpeg", a).as_str());
    }
    if let Some(a) = &caps.atrac {
        push_text(&mut out, adapter_line("atrac", a).as_str());
    }
    if let Some(a) = &caps.wmv9 {
        push_text(&mut out, adapter_line("wmv9", a).as_str());
    }
    if caps.ffmpeg.is_none() {
        push_text(&mut out, "  ffmpeg: not available");
    }
    if caps.atrac.is_none() {
        push_text(&mut out, "  atrac: not available");
    }
    assert(texts(out@) =~= check_text(*bins, *caps));
    out
}

// ---- laws -----------------------------------------------------------------

/// One where there is a line, none otherwise.
pub open spec fn one_if(there: bool) -> int {
    if there {
        1
    } else {
        0
    }
}

/// What is printed of an audio file tells each of its facts under its own
/// heading, leaves out what is not known, and tells nothing else.
pub proof fn law_audio_files_are_told(a: AudioInfo, duration: Option<String>, r: Vec<String>)
    requires
        call_ensures(audio_lines, (&a, &duration), r),
    ensures
        ({
            let t = texts(r@);
            &&& t[0] == "path:        "@ + a.path@
            &&& t[1] == "type:        audio"@
            &&& t[2] == "container:   "@ + a.container@
            &&& t[3] == "codec:       "@ + a.codec@
            &&& a.sample_rate_hz matches Some(n) ==> has_word(
                t,
                "sample rate: "@ + decimal(n as nat) + " Hz"@,
            )
            &&& a.channels matches Some(n) ==> has_word(
                t,
                "channels:    "@ + decimal(n as nat) + Seq::<char>::empty(),
            )
            &&& a.bits_per_sample matches Some(n) ==> has_word(
                t,
                "bit depth:   "@ + decimal(n as nat) + Seq::<char>::empty(),
            )
            &&& duration matches Some(d) ==> has_word(t, "duration:    "@ + d@)
            &&& a.bitrate_kbps matches Some(n) ==> has_word(
                t,
                "bitrate:     ~"@ + decimal(n as nat) + " kbps"@,
            )
            &&& a.has_artwork ==> has_word(t, "artwork:     "@ + "present"@)
            &&& !a.has_artwork ==> has_word(t, "artwork:     "@ + "absent"@)
            &&& a.profile matches Some(p) ==> has_word(t, "profile:     "@ + p@)
            &&& a.priming_samples matches Some(n) ==> has_word(
                t,
                "priming:     "@ + decimal(n as nat) + " samples"@,
            )
            &&& a.priming_samples is None ==> has_word(t, "priming:     unknown"@)
            &&& a.has_chapters ==> has_word(t, "chapters:    "@ + "present"@)
            &&& !a.has_chapters ==> has_word(t, "chapters:    "@ + "absent"@)
            &&& t.len() == 7 + one_if(a.sample_rate_hz is Some) + one_if(a.channels is Some)
                + one_if(a.bits_per_sample is Some) + one_if(duration is Some) + one_if(
                a.bitrate_kbps is Some,
            ) + one_if(a.profile is Some) + one_if(a.tags@.len() > 0) + a.tags@.len()
        }),
{
    broadcast use group_command_lines;

    let h = audio_head(a, opt_text(duration));
    let e = audio_tail(a);
    let two = seq![
        match a.priming_samples {
            Some(n) => "priming:     "@ + decimal(n as nat) + " samples"@,
            None => "priming:     unknown"@,
        },
        "chapters:    "@ + presence(a.has_chapters),
    ];
    lemma_word_at(two, 0);
    lemma_word_at(two, 1);
    lemma_lines_told("sample rate: "@, wide(a.sample_rate_hz), " Hz"@);
    lemma_lines_told("channels:    "@, wide_byte(a.channels), Seq::empty());
    lemma_lines_told("bit depth:   "@, wide(a.bits_per_sample), Seq::empty());
    lemma_lines_told("bitrate:     ~"@, wide(a.bitrate_kbps), " kbps"@);
    lemma_line_told("duration:    "@, opt_text(duration));
    lemma_line_told("profile:     "@, opt_text(a.profile));
    lemma_audio_parts(a, opt_text(duration));
}

proof fn lemma_lines_told(front: Seq<char>, n: Option<nat>, back: Seq<char>)
    ensures
        n matches Some(x) ==> has_word(number_line(front, n, back), front + decimal(x) + back),
        number_line(front, n, back).len() == one_if(n is Some),
{
    if n is Some {
        lemma_word_at(number_line(front, n, back), 0);
    }
}

proof fn lemma_line_told(front: Seq<char>, text: Option<Seq<char>>)
    ensures
        text matches Some(x) ==> has_word(line_if(front, text), front + x),
        line_if(front, text).len() == one_if(text is Some),
{
    if text is Some {
        lemma_word_at(line_if(front, text), 0);
    }
}

proof fn lemma_audio_parts(a: AudioInfo, duration: Option<Seq<char>>)
    ensures
        ({
            let t = audio_head(a, duration) + audio_tail(a);
            &&& forall|w: Seq<char>|
                has_word(number_line("sample rate: "@, wide(a.sample_rate_hz), " Hz"@), w)
                    ==> #[trigger] has_word(t, w)
            &&& forall|w: Seq<char>|
                has_word(number_line("channels:    "@, wide_byte(a.channels), Seq::empty()), w)
                    ==> #[trigger] has_word(t, w)
            &&& forall|w: Seq<char>|
                has_word(number_line("bit depth:   "@, wide(a.bits_per_sample), Seq::empty()), w)
                    ==> #[trigger] has_word(t, w)
            &&& forall|w: Seq<char>|
                has_word(line_if("duration:    "@, duration), w) ==> #[trigger] has_word(t, w)
            &&& forall|w: Seq<char>|
                has_word(number_line("bitrate:     ~"@, wide(a.bitrate_kbps), " kbps"@), w)
                    ==> #[trigger] has_word(t, w)
            &&& forall|w: Seq<char>|
                has_word(line_if("profile:     "@, opt_text(a.profile)), w) ==> #[trigger] has_word(
                    t,
                    w,
                )
            &&& forall|w: Seq<char>|
                has_word(
                    seq![
                        match a.priming_samples {
                            Some(n) => "priming:     "@ + decimal(n as nat) + " samples"@,
                            None => "priming:     unknown"@,
                        },
                        "chapters:    "@ + presence(a.has_chapters),
                    ],
                    w,
                ) ==> #[trigger] has_word(t, w)
            &&& has_word(t, "artwork:     "@ + presence(a.has_artwork))
        }),
{
    let x1 = number_line("sample rate: "@, wide(a.sample_rate_hz), " Hz"@);
    let x2 = number_line("channels:    "@, wide_byte(a.channels), Seq::empty());
    let x3 = number_line("bit depth:   "@, wide(a.bits_per_sample), Seq::empty());
    let x4 = line_if("duration:    "@, duration);
    let x5 = number_line("bitrate:     ~"@, wide(a.bitrate_kbps), " kbps"@);
    let y0 = seq!["artwork:     "@ + presence(a.has_artwork)];
    let y1 = line_if("profile:     "@, opt_text(a.profile));
    let y2 = seq![
        match a.priming_samples {
            Some(n) => "priming:     "@ + decimal(n as nat) + " samples"@,
            None => "priming:     unknown"@,
        },
        "chapters:    "@ + presence(a.has_chapters),
    ];
    let y3 = tag_lines(a.tags@);
    let x0 = seq![
        "path:        "@ + a.path@,
        "type:        audio"@,
        "container:   "@ + a.container@,
        "codec:       "@ + a.codec@,
    ];
    let h1 = x0 + x1;
    let h2 = h1 + x2;
    let h3 = h2 + x3;
    let h4 = h3 + x4;
    let h = h4 + x5;
    let e1 = y0 + y1;
    let e2 = e1 + y2;
    let e = e2 + y3;
    assert(audio_head(a, duration) == h);
    assert(audio_tail(a) == e);
    assert forall|w: Seq<char>|
        has_word(x1, w) || has_word(x2, w) || has_word(x3, w) || has_word(x4, w) || has_word(x5, w)
            || has_word(y0, w) || has_word(y1, w) || has_word(y2, w) implies #[trigger] has_word(
        h + e,
        w,
    ) by {
        broadcast use group_command_lines;

        if has_word(x1, w) {
            assert(has_word(h1, w));
        }
        if has_word(h1, w) || has_word(x2, w) {
            assert(has_word(h2, w));
        }
        if has_word(h2, w) || has_word(x3, w) {
            assert(has_word(h3, w));
        }
        if has_word(h3, w) || has_word(x4, w) {
            assert(has_word(h4, w));
        }
        if has_word(h4, w) || has_word(x5, w) {
            assert(has_word(h, w));
        }
        if has_word(y0, w) || has_word(y1, w) {
            assert(has_word(e1, w));
        }
        if has_word(e1, w) || has_word(y2, w) {
            assert(has_word(e2, w));
        }
        if has_word(e2, w) {
            assert(has_word(e, w));
        }
    }
    lemma_word_at(y0, 0);
}

/// The tags of a file are told under one heading, each with its key before its
/// value, in their order.
pub proof fn law_tags_are_told_in_order(a: AudioInfo, duration: Option<String>, r: Vec<String>, i: int)
    requires
        call_ensures(audio_lines, (&a, &duration), r),
        0 <= i < a.tags@.len(),
    ensures
        ({
            let t = texts(r@);
            let at = t.len() - a.tags@.len();
            &&& t[at - 1] == "tags:"@
            &&& t[at + i] == "  "@ + a.tags@[i].0 + ": "@ + a.tags@[i].1
        }),
{
}

/// What is printed of an outcome tells the file, and of a failure what was wrong:
/// what was expected before what was found.
pub proof fn law_outcomes_are_told(
    result: VerificationResult,
    expected: &str,
    found: &str,
    r: String,
)
    requires
        call_ensures(outcome_line, (&result, expected, found), r),
    ensures
        result.status is Intact ==> r@ == "  ok  "@ + result.output_path@,
        result.status is Missing ==> r@ == "  MISSING  "@ + result.output_path@,
        result.status is Empty ==> r@ == "  EMPTY  "@ + result.output_path@,
        result.status is CarriedForward ==> r@ == "  carried  "@ + result.output_path@,
        result.status matches VerificationStatus::Unreadable { error } ==> r@ == "  UNREADABLE  "@
            + result.output_path@ + ": "@ + error@,
        result.status matches VerificationStatus::ShapeMismatch { detail } ==> r@
            == "  SHAPE MISMATCH  "@ + result.output_path@ + " ("@ + detail@ + ")"@,
        result.status is DurationMismatch ==> r@ == "  DURATION MISMATCH  "@ + result.output_path@
            + " (expected "@ + expected@ + "s, got "@ + found@ + "s)"@,
        result.status matches VerificationStatus::OriginallyFailed { error } ==> r@
            == "  ORIGINALLY FAILED  "@ + result.output_path@ + ": "@ + error@,
{
}

/// A verification ends with its counts, the good ones first; a graph is told by
/// its path, its size and the first sixteen digits of its digest.
pub proof fn law_counts_are_told(
    ok: usize,
    failed: usize,
    counts: String,
    path: &str,
    nodes: usize,
    hash: &str,
    graph: String,
)
    requires
        call_ensures(counts_line, (ok, failed), counts),
        call_ensures(graph_line, (path, nodes, hash), graph),
        hash@.len() >= 16,
    ensures
        counts@ == "\n"@ + decimal(ok as nat) + " ok, "@ + decimal(failed as nat) + " failed"@,
        graph@ == "graph written to "@ + path@ + " ("@ + decimal(nodes as nat) + " nodes, hash: "@
            + hash@.subrange(0, 16) + ")"@,
{
    assert(hash@.take(16) =~= hash@.subrange(0, 16));
}

/// The methods of acceleration are the lines of the list, without the white space
/// around them, but for blank lines and headings.
pub proof fn law_methods_are_the_plain_lines(output: &str, r: Vec<String>)
    requires
        call_ensures(hwaccel_methods, (output,), r),
    ensures
        texts(r@) == lines(output@).map_values(
            |l: Seq<char>| trim_end(trim_start(l)),
        ).filter(|l: Seq<char>| l.len() > 0 && l[l.len() - 1] != ':'),
{
    lemma_methods(lines(output@));
}

proof fn lemma_methods(v: Seq<Seq<char>>)
    ensures
        methods_in(v) == v.map_values(|l: Seq<char>| trim_end(trim_start(l))).filter(
            |l: Seq<char>| l.len() > 0 && l[l.len() - 1] != ':',
        ),
    decreases v.len(),
{
    reveal(Seq::filter);
    let m = v.map_values(|l: Seq<char>| trim_end(trim_start(l)));
    if v.len() > 0 {
        lemma_methods(v.drop_last());
        assert(m.drop_last() =~= v.drop_last().map_values(
            |l: Seq<char>| trim_end(trim_start(l)),
        ));
        assert(m.last() == trim_end(trim_start(v.last())));
    } else {
        assert(m =~= Seq::<Seq<char>>::empty());
    }
}

proof fn lemma_padded(s: Seq<char>, width: nat)
    ensures
        padded(s, width).len() == (if s.len() < width {
            width
        } else {
            s.len()
        }),
        padded(s, width).take(s.len() as int) == s,
        forall|i: int| s.len() <= i < padded(s, width).len() ==> padded(s, width)[i] == ' ',
    decreases width - s.len(),
{
    if s.len() < width {
        lemma_padded(s.push(' '), width);
        let p = padded(s, width);
        assert(p.take(s.len() as int) =~= p.take(s.len() as int + 1).take(s.len() as int));
        assert(s.push(' ').take(s.len() as int) =~= s);
        assert(p[s.len() as int] == p.take(s.len() as int + 1)[s.len() as int]);
    } else {
        assert(padded(s, width).take(s.len() as int) =~= s);
    }
}

/// The tools are told in a column: the name, blanks up to the twelfth place, and
/// whether and where it was found, for each of the three in turn.
pub proof fn law_tools_are_told_in_a_column(
    bins: BinaryPaths,
    caps: ResolvedCapabilities,
    r: Vec<String>,
)
    requires
        call_ensures(check_lines, (&bins, &caps), r),
    ensures
        ({
            let t = texts(r@);
            &&& t[0] == "Binaries:"@
            &&& tells_tool(t[1], "ffmpeg"@, bins.ffmpeg)
            &&& tells_tool(t[2], "ffprobe"@, bins.ffprobe)
            &&& tells_tool(t[3], "atracdenc"@, bins.atracdenc)
            &&& t[4] == "\nEncoder adapters:"@
            &&& t.len() == 7 + one_if(caps.wmv9 is Some)
            &&& caps.ffmpeg matches Some(a) ==> t[5] == "  "@ + "ffmpeg"@ + ": available ("@ + join(
                a.codecs(),
                ", "@,
            ) + ")"@
            &&& caps.ffmpeg is None ==> has_word(t, "  ffmpeg: not available"@)
            &&& caps.atrac matches Some(a) ==> has_word(
                t,
                "  "@ + "atrac"@ + ": available ("@ + join(a.codecs(), ", "@) + ")"@,
            )
            &&& caps.atrac is None ==> has_word(t, "  atrac: not available"@)
            &&& caps.wmv9 matches Some(a) ==> has_word(
                t,
                "  "@ + "wmv9"@ + ": available ("@ + join(a.codecs(), ", "@) + ")"@,
            )
        }),
{
    let t = texts(r@);
    assert(t == check_text(bins, caps));
    reveal_strlit("ffmpeg");
    reveal_strlit("ffprobe");
    reveal_strlit("atracdenc");
    lemma_tool_told("ffmpeg"@, bins.ffmpeg);
    lemma_tool_told("ffprobe"@, bins.ffprobe);
    lemma_tool_told("atracdenc"@, bins.atracdenc);
    let f = one_if(caps.ffmpeg is Some);
    let a = one_if(caps.atrac is Some);
    let w = one_if(caps.wmv9 is Some);
    if caps.atrac is Some {
        lemma_word_at(t, 5 + f);
    } else {
        lemma_word_at(t, t.len() - 1);
    }
    if caps.wmv9 is Some {
        lemma_word_at(t, 5 + f + a);
    }
    if caps.ffmpeg is None {
        lemma_word_at(t, 5 + a + w);
    }
}

/// Whether a line tells a tool: its name from the third place on, blanks up to
/// the fourteenth, and behind them where it is or that it is not.
pub open spec fn tells_tool(line: Seq<char>, name: Seq<char>, path: Option<String>) -> bool {
    &&& line.len() >= 14
    &&& line[0] == ' ' && line[1] == ' '
    &&& line.subrange(2, 2 + name.len() as int) == name
    &&& forall|i: int| 2 + name.len() <= i < 14 ==> #[trigger] line[i] == ' '
    &&& path matches Some(p) ==> line.skip(14) == " found    "@ + p@
    &&& path is None ==> line.skip(14) == " NOT FOUND"@
}

proof fn lemma_tool_told(name: Seq<char>, path: Option<String>)
    requires
        name.len() <= 12,
    ensures
        tells_tool(tool_text(name, opt_text(path)), name, path),
{
    reveal_strlit("  ");
    lemma_padded(name, 12);
    let p = padded(name, 12);
    let line = tool_text(name, opt_text(path));
    let back = match path {
        Some(x) => " found    "@ + x@,
        None => " NOT FOUND"@,
    };
    assert(line == "  "@ + p + back);
    assert(line.skip(14) =~= back);
    assert(line.subrange(2, 2 + name.len() as int) =~= p.take(name.len() as int));
    assert forall|i: int| 2 + name.len() <= i < 14 implies #[trigger] line[i] == ' ' by {
        assert(line[i] == p[i - 2]);
    }
}

/// What is printed of a video file tells its head, every one of its streams with
/// its number, its codec and its size or rate, and its tags.
pub proof fn law_video_files_are_told(
    v: VideoInfo,
    duration: Option<String>,
    fps: &[Option<String>],
    r: Vec<String>,
    i: int,
)
    requires
        call_ensures(video_lines, (&v, &duration, fps), r),
        fps@.len() == v.video_streams@.len(),
    ensures
        ({
            let t = texts(r@);
            &&& t[0] == "path:        "@ + v.path@
            &&& t[1] == "type:        video"@
            &&& t[2] == "container:   "@ + v.container@
            &&& duration matches Some(d) ==> t[3] == "duration:    "@ + d@
            &&& 0 <= i < v.video_streams@.len() ==> {
                let s = v.video_streams@[i];
                &&& has_word(
                    t,
                    "video["@ + decimal(i as nat) + "]:    "@ + s.codec@ + " "@ + decimal(
                        s.width as nat,
                    ) + "x"@ + decimal(s.height as nat),
                )
                &&& fps@[i] matches Some(f) ==> has_word(t, "  fps:       "@ + f@)
                &&& s.bitrate_kbps matches Some(n) ==> has_word(
                    t,
                    "  bitrate:   ~"@ + decimal(n as nat) + " kbps"@,
                )
                &&& s.pixel_format matches Some(f) ==> has_word(t, "  pixel fmt: "@ + f@)
            }
            &&& 0 <= i < v.audio_streams@.len() ==> {
                let s = v.audio_streams@[i];
                &&& has_word(t, "audio["@ + decimal(i as nat) + "]:    "@ + s.codec@)
                &&& s.sample_rate_hz matches Some(n) ==> has_word(
                    t,
                    "  sample rate: "@ + decimal(n as nat) + " Hz"@,
                )
                &&& s.channels matches Some(n) ==> has_word(
                    t,
                    "  channels:    "@ + decimal(n as nat) + Seq::<char>::empty(),
                )
                &&& s.bitrate_kbps matches Some(n) ==> has_word(
                    t,
                    "  bitrate:     ~"@ + decimal(n as nat) + " kbps"@,
                )
            }
        }),
{
    let t = texts(r@);
    let top = seq![
        "path:        "@ + v.path@,
        "type:        video"@,
        "container:   "@ + v.container@,
    ];
    let d = line_if("duration:    "@, opt_text(duration));
    let pictures = video_streams_lines(v.video_streams@, fps@, v.video_streams@.len());
    let sounds = audio_streams_lines(v.audio_streams@, v.audio_streams@.len());
    let tags = tag_lines(v.tags@);
    assert(t == top + d + pictures + sounds + tags);
    if 0 <= i < v.video_streams@.len() {
        let s = v.video_streams@[i];
        let part = video_stream_lines(i as nat, s, opt_text(fps@[i]));
        assert forall|w: Seq<char>| has_word(part, w) implies #[trigger] has_word(t, w) by {
            broadcast use group_command_lines;

            lemma_picture_told(v.video_streams@, fps@, v.video_streams@.len(), i, w);
            assert(has_word(top + d + pictures, w));
            assert(has_word(top + d + pictures + sounds, w));
        }
        lemma_picture_lines(i as nat, s, opt_text(fps@[i]));
    }
    if 0 <= i < v.audio_streams@.len() {
        let s = v.audio_streams@[i];
        let part = audio_stream_lines(i as nat, s);
        assert forall|w: Seq<char>| has_word(part, w) implies #[trigger] has_word(t, w) by {
            broadcast use group_command_lines;

            lemma_sound_told(v.audio_streams@, v.audio_streams@.len(), i, w);
            assert(has_word(top + d + pictures + sounds, w));
        }
        lemma_sound_lines(i as nat, s);
    }
}

proof fn lemma_picture_lines(i: nat, s: VideoStream, fps: Option<Seq<char>>)
    ensures
        ({
            let t = video_stream_lines(i, s, fps);
            &&& has_word(
                t,
                "video["@ + decimal(i) + "]:    "@ + s.codec@ + " "@ + decimal(s.width as nat)
                    + "x"@ + decimal(s.height as nat),
            )
            &&& fps matches Some(f) ==> has_word(t, "  fps:       "@ + f)
            &&& s.bitrate_kbps matches Some(n) ==> has_word(
                t,
                "  bitrate:   ~"@ + decimal(n as nat) + " kbps"@,
            )
            &&& s.pixel_format matches Some(f) ==> has_word(t, "  pixel fmt: "@ + f@)
        }),
{
    let t = video_stream_lines(i, s, fps);
    let f = one_if(fps is Some);
    let b = one_if(s.bitrate_kbps is Some);
    lemma_word_at(t, 0);
    if fps is Some {
        lemma_word_at(t, 1);
    }
    if s.bitrate_kbps is Some {
        lemma_word_at(t, 1 + f);
    }
    if s.pixel_format is Some {
        lemma_word_at(t, 1 + f + b);
    }
}

proof fn lemma_sound_lines(i: nat, s: AudioStream)
    ensures
        ({
            let t = audio_stream_lines(i, s);
            &&& has_word(t, "audio["@ + decimal(i) + "]:    "@ + s.codec@)
            &&& s.sample_rate_hz matches Some(n) ==> has_word(
                t,
                "  sample rate: "@ + decimal(n as nat) + " Hz"@,
            )
            &&& s.channels matches Some(n) ==> has_word(
                t,
                "  channels:    "@ + decimal(n as nat) + Seq::<char>::empty(),
            )
            &&& s.bitrate_kbps matches Some(n) ==> has_word(
                t,
                "  bitrate:     ~"@ + decimal(n as nat) + " kbps"@,
            )
        }),
{
    let t = audio_stream_lines(i, s);
    let a = one_if(s.sample_rate_hz is Some);
    let c = one_if(s.channels is Some);
    lemma_word_at(t, 0);
    if s.sample_rate_hz is Some {
        lemma_word_at(t, 1);
    }
    if s.channels is Some {
        lemma_word_at(t, 1 + a);
    }
    if s.bitrate_kbps is Some {
        lemma_word_at(t, 1 + a + c);
    }
}

proof fn lemma_picture_told(
    v: Seq<VideoStream>,
    fps: Seq<Option<String>>,
    n: nat,
    i: int,
    w: Seq<char>,
)
    requires
        0 <= i < n,
        has_word(video_stream_lines(i as nat, v[i], opt_text(fps[i])), w),
    ensures
        has_word(video_streams_lines(v, fps, n), w),
    decreases n,
{
    broadcast use group_command_lines;

    if i < n - 1 {
        lemma_picture_told(v, fps, (n - 1) as nat, i, w);
    }
}

proof fn lemma_sound_told(v: Seq<AudioStream>, n: nat, i: int, w: Seq<char>)
    requires
        0 <= i < n,
        has_word(audio_stream_lines(i as nat, v[i]), w),
    ensures
        has_word(audio_streams_lines(v, n), w),
    decreases n,
{
    broadcast use group_command_lines;

    if i < n - 1 {
        lemma_sound_told(v, (n - 1) as nat, i, w);
    }
}

/// The tags of a video file are told last, as those of an audio file are.
pub proof fn law_video_tags_are_told_last(
    v: VideoInfo,
    duration: Option<String>,
    fps: &[Option<String>],
    r: Vec<String>,
    i: int,
)
    requires
        call_ensures(video_lines, (&v, &duration, fps), r),
        fps@.len() == v.video_streams@.len(),
        0 <= i < v.tags@.len(),
    ensures
        ({
            let t = texts(r@);
            let at = t.len() - v.tags@.len();
            &&& t[at - 1] == "tags:"@
            &&& t[at + i] == "  "@ + v.tags@[i].0 + ": "@ + v.tags@[i].1
        }),
{
    let t = texts(r@);
    let tags = tag_lines(v.tags@);
    let front = video_text(v, opt_text(duration), fps@).len() - tags.len();
    assert(t.len() == front + tags.len());
    assert(t[front] == tags[0]);
    assert(t[front + 1 + i] == tags[1 + i]);
}

} // verus!
