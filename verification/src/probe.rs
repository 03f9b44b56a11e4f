//! Media facts: what a probed file is, in the library's own terms.

use crate::host::Secs;
use crate::mp4_aac::{
    artifact_fault, is_iso_bmff_audio_ext, names_iso_bmff, AudiobookFacts, Mp4AacInfo,
};
use crate::text::{
    decimal, decimal_text, lower, opt_is, opt_text, same_ignoring_case, signed_decimal,
    signed_text, unicode_lower,
};
use crate::text_map::{
    keys_ascend, law_first_value_wins, law_other_keys_stay, law_placed_keys_ascend, lookup, placed,
    TextMap,
};
use vstd::prelude::*;
use vstd::string::*;

verus! {

/// Facts about an audio file.
#[derive(Debug)]
pub struct AudioInfo {
    pub path: String,
    /// The container, by the extension of the file.
    pub container: String,
    pub codec: String,
    pub sample_rate_hz: Option<u32>,
    pub channels: Option<u8>,
    pub bits_per_sample: Option<u32>,
    pub duration_secs: Option<Secs>,
    /// Estimated from the size and the duration of the file.
    pub bitrate_kbps: Option<u32>,
    pub has_artwork: bool,
    /// The AAC profile, where the file says it.
    pub profile: Option<String>,
    /// Encoder delay in PCM samples, where the file says it.
    pub priming_samples: Option<u64>,
    pub has_chapters: bool,
    pub tags: TextMap,
}

impl AudioInfo {
    /// Whether the file is already in a format, in any case of its names.
    pub open spec fn is_in(&self, codec: Seq<char>, container: Seq<char>) -> bool {
        lower(self.codec@) == lower(codec) && lower(self.container@) == lower(container)
    }

    /// Whether codec and container already match the target.
    pub fn matches_codec(&self, codec: &str, container: &str) -> (r: bool)
        ensures
            r == self.is_in(codec@, container@),
    {
        same_ignoring_case(self.codec.as_str(), codec) && same_ignoring_case(
            self.container.as_str(),
            container,
        )
    }
}

/// A video stream of a file.
#[derive(Debug)]
pub struct VideoStream {
    pub codec: String,
    pub width: u32,
    pub height: u32,
    /// Frames per second, as it is written on a command line.
    pub frame_rate: Option<String>,
    pub bitrate_kbps: Option<u32>,
    pub pixel_format: Option<String>,
}

/// An audio stream of a video file.
#[derive(Debug)]
pub struct AudioStream {
    pub codec: String,
    pub sample_rate_hz: Option<u32>,
    pub channels: Option<u8>,
    pub bitrate_kbps: Option<u32>,
}

/// Facts about a video file.
#[derive(Debug)]
pub struct VideoInfo {
    pub path: String,
    pub container: String,
    pub duration_secs: Option<Secs>,
    pub video_streams: Vec<VideoStream>,
    pub audio_streams: Vec<AudioStream>,
    pub tags: TextMap,
}

/// Facts about a media file.
#[derive(Debug)]
pub enum MediaInfo {
    Audio(AudioInfo),
    Video(VideoInfo),
}

impl MediaInfo {
    pub open spec fn container_text(&self) -> Seq<char> {
        match self {
            MediaInfo::Audio(a) => a.container@,
            MediaInfo::Video(v) => v.container@,
        }
    }

    pub open spec fn frame_size(&self) -> Option<(u32, u32)> {
        match self {
            MediaInfo::Audio(_) => None,
            MediaInfo::Video(v) => if v.video_streams@.len() == 0 {
                None
            } else {
                Some((v.video_streams@[0].width, v.video_streams@[0].height))
            },
        }
    }

    pub open spec fn length(&self) -> Option<Secs> {
        match self {
            MediaInfo::Audio(a) => a.duration_secs,
            MediaInfo::Video(v) => v.duration_secs,
        }
    }

    /// The codec of the first video stream.
    pub open spec fn video_codec_text(&self) -> Option<Seq<char>> {
        match self {
            MediaInfo::Audio(_) => None,
            MediaInfo::Video(v) => if v.video_streams@.len() == 0 {
                None
            } else {
                Some(v.video_streams@[0].codec@)
            },
        }
    }

    /// The codec of an audio file, or of the first audio stream of a video.
    pub open spec fn audio_codec_text(&self) -> Option<Seq<char>> {
        match self {
            MediaInfo::Audio(a) => Some(a.codec@),
            MediaInfo::Video(v) => if v.audio_streams@.len() == 0 {
                None
            } else {
                Some(v.audio_streams@[0].codec@)
            },
        }
    }

    /// The codec of the first video stream.
    pub fn video_codec(&self) -> (r: Option<String>)
        ensures
            opt_text(r) == self.video_codec_text(),
    {
        match self {
            MediaInfo::Audio(_) => None,
            MediaInfo::Video(v) => {
                if v.video_streams.len() == 0 {
                    None
                } else {
                    Some(v.video_streams[0].codec.clone())
                }
            },
        }
    }

    /// The codec of an audio file, or of the first audio stream of a video.
    pub fn audio_codec(&self) -> (r: Option<String>)
        ensures
            opt_text(r) == self.audio_codec_text(),
    {
        match self {
            MediaInfo::Audio(a) => Some(a.codec.clone()),
            MediaInfo::Video(v) => {
                if v.audio_streams.len() == 0 {
                    None
                } else {
                    Some(v.audio_streams[0].codec.clone())
                }
            },
        }
    }

    pub fn container(&self) -> (r: &str)
        ensures
            r@ == self.container_text(),
    {
        match self {
            MediaInfo::Audio(a) => a.container.as_str(),
            MediaInfo::Video(v) => v.container.as_str(),
        }
    }

    /// The size of the first video stream.
    pub fn dimensions(&self) -> (r: Option<(u32, u32)>)
        ensures
            r == self.frame_size(),
    {
        match self {
            MediaInfo::Audio(_) => None,
            MediaInfo::Video(v) => {
                if v.video_streams.len() == 0 {
                    None
                } else {
                    Some((v.video_streams[0].width, v.video_streams[0].height))
                }
            },
        }
    }

    /// The codecs of the file: of an audio file its one, of a video file those of
    /// its first video and its first audio stream.
    pub open spec fn codec_text(&self) -> Seq<char> {
        match self {
            MediaInfo::Audio(a) => a.codec@,
            MediaInfo::Video(v) => if v.video_streams@.len() == 0 {
                if v.audio_streams@.len() == 0 {
                    Seq::empty()
                } else {
                    v.audio_streams@[0].codec@
                }
            } else if v.audio_streams@.len() == 0 {
                v.video_streams@[0].codec@
            } else {
                v.video_streams@[0].codec@ + "/"@ + v.audio_streams@[0].codec@
            },
        }
    }

    /// The codecs of the file, in one word.
    pub fn codec_summary(&self) -> (r: String)
        ensures
            r@ == self.codec_text(),
    {
        match self {
            MediaInfo::Audio(a) => a.codec.clone(),
            MediaInfo::Video(v) => {
                if v.video_streams.len() == 0 {
                    if v.audio_streams.len() == 0 {
                        String::new()
                    } else {
                        v.audio_streams[0].codec.clone()
                    }
                } else {
                    let mut s = v.video_streams[0].codec.clone();
                    if v.audio_streams.len() > 0 {
                        s.append("/");
                        s.append(v.audio_streams[0].codec.as_str());
                    }
                    s
                }
            },
        }
    }

    pub fn duration_secs(&self) -> (r: Option<Secs>)
        ensures
            r == self.length(),
    {
        match self {
            MediaInfo::Audio(a) => a.duration_secs,
            MediaInfo::Video(v) => v.duration_secs,
        }
    }
}

// ---- codecs ---------------------------------------------------------------

/// The codecs that probing tells apart.
#[derive(Debug, Clone, Copy, PartialEq, Eq, Structural)]
pub enum CodecKind {
    Mp1,
    Mp2,
    Mp3,
    Aac,
    Flac,
    Vorbis,
    Opus,
    Alac,
    PcmS8,
    PcmU8,
    PcmS16Le,
    PcmS16Be,
    PcmU16Le,
    PcmU16Be,
    PcmS24Le,
    PcmS24Be,
    PcmS32Le,
    PcmS32Be,
    PcmF32Le,
    PcmF32Be,
    PcmF64Le,
    PcmF64Be,
    Null,
    Unknown,
}

/// The name of a codec.
pub open spec fn codec_name(codec: CodecKind) -> Seq<char> {
    match codec {
        CodecKind::Mp1 => "mp1"@,
        CodecKind::Mp2 => "mp2"@,
        CodecKind::Mp3 => "mp3"@,
        CodecKind::Aac => "aac"@,
        CodecKind::Flac => "flac"@,
        CodecKind::Vorbis => "vorbis"@,
        CodecKind::Opus => "opus"@,
        CodecKind::Alac => "alac"@,
        CodecKind::PcmS8 => "pcm_s8"@,
        CodecKind::PcmU8 => "pcm_u8"@,
        CodecKind::PcmS16Le => "pcm_s16le"@,
        CodecKind::PcmS16Be => "pcm_s16be"@,
        CodecKind::PcmU16Le => "pcm_u16le"@,
        CodecKind::PcmU16Be => "pcm_u16be"@,
        CodecKind::PcmS24Le => "pcm_s24le"@,
        CodecKind::PcmS24Be => "pcm_s24be"@,
        CodecKind::PcmS32Le => "pcm_s32le"@,
        CodecKind::PcmS32Be => "pcm_s32be"@,
        CodecKind::PcmF32Le => "pcm_f32le"@,
        CodecKind::PcmF32Be => "pcm_f32be"@,
        CodecKind::PcmF64Le => "pcm_f64le"@,
        CodecKind::PcmF64Be => "pcm_f64be"@,
        CodecKind::Null => "null"@,
        CodecKind::Unknown => "unknown"@,
    }
}

pub fn codec_type_to_str(codec: CodecKind) -> (r: &'static str)
    ensures
        r@ == codec_name(codec),
{
    match codec {
        CodecKind::Mp1 => "mp1",
        CodecKind::Mp2 => "mp2",
        CodecKind::Mp3 => "mp3",
        CodecKind::Aac => "aac",
        CodecKind::Flac => "flac",
        CodecKind::Vorbis => "vorbis",
        CodecKind::Opus => "opus",
        CodecKind::Alac => "alac",
        CodecKind::PcmS8 => "pcm_s8",
        CodecKind::PcmU8 => "pcm_u8",
        CodecKind::PcmS16Le => "pcm_s16le",
        CodecKind::PcmS16Be => "pcm_s16be",
        CodecKind::PcmU16Le => "pcm_u16le",
        CodecKind::PcmU16Be => "pcm_u16be",
        CodecKind::PcmS24Le => "pcm_s24le",
        CodecKind::PcmS24Be => "pcm_s24be",
        CodecKind::PcmS32Le => "pcm_s32le",
        CodecKind::PcmS32Be => "pcm_s32be",
        CodecKind::PcmF32Le => "pcm_f32le",
        CodecKind::PcmF32Be => "pcm_f32be",
        CodecKind::PcmF64Le => "pcm_f64le",
        CodecKind::PcmF64Be => "pcm_f64be",
        CodecKind::Null => "null",
        CodecKind::Unknown => "unknown",
    }
}

// ---- tags -----------------------------------------------------------------

/// The standard keys that have a name of their own; `Other` holds the name of
/// any further one.
#[derive(Debug)]
pub enum TagKey {
    TrackTitle,
    Artist,
    Album,
    AlbumArtist,
    TrackNumber,
    TrackTotal,
    DiscNumber,
    DiscTotal,
    Date,
    OriginalDate,
    Genre,
    Comment,
    Composer,
    Lyrics,
    Label,
    Bpm,
    EncodedBy,
    Encoder,
    Copyright,
    Other(String),
}

/// The name under which a standard key is listed.
pub open spec fn key_name(key: TagKey) -> Seq<char> {
    match key {
        TagKey::TrackTitle => "title"@,
        TagKey::Artist => "artist"@,
        TagKey::Album => "album"@,
        TagKey::AlbumArtist => "album_artist"@,
        TagKey::TrackNumber => "track"@,
        TagKey::TrackTotal => "track_total"@,
        TagKey::DiscNumber => "disc"@,
        TagKey::DiscTotal => "disc_total"@,
        TagKey::Date => "date"@,
        TagKey::OriginalDate => "original_date"@,
        TagKey::Genre => "genre"@,
        TagKey::Comment => "comment"@,
        TagKey::Composer => "composer"@,
        TagKey::Lyrics => "lyrics"@,
        TagKey::Label => "label"@,
        TagKey::Bpm => "bpm"@,
        TagKey::EncodedBy => "encoded_by"@,
        TagKey::Encoder => "encoder"@,
        TagKey::Copyright => "copyright"@,
        TagKey::Other(name) => unicode_lower(name@),
    }
}

pub fn std_key_name(key: &TagKey) -> (r: String)
    ensures
        r@ == key_name(*key),
{
    match key {
        TagKey::TrackTitle => "title".to_owned(),
        TagKey::Artist => "artist".to_owned(),
        TagKey::Album => "album".to_owned(),
        TagKey::AlbumArtist => "album_artist".to_owned(),
        TagKey::TrackNumber => "track".to_owned(),
        TagKey::TrackTotal => "track_total".to_owned(),
        TagKey::DiscNumber => "disc".to_owned(),
        TagKey::DiscTotal => "disc_total".to_owned(),
        TagKey::Date => "date".to_owned(),
        TagKey::OriginalDate => "original_date".to_owned(),
        TagKey::Genre => "genre".to_owned(),
        TagKey::Comment => "comment".to_owned(),
        TagKey::Composer => "composer".to_owned(),
        TagKey::Lyrics => "lyrics".to_owned(),
        TagKey::Label => "label".to_owned(),
        TagKey::Bpm => "bpm".to_owned(),
        TagKey::EncodedBy => "encoded_by".to_owned(),
        TagKey::Encoder => "encoder".to_owned(),
        TagKey::Copyright => "copyright".to_owned(),
        TagKey::Other(name) => name.as_str().to_lowercase(),
    }
}

/// The value of a tag. A number with a fraction comes as its text.
#[derive(Debug)]
pub enum TagValue {
    Text(String),
    Boolean(bool),
    Unsigned(u64),
    Signed(i64),
    Fraction(String),
    Binary,
    Flag,
}

/// A tag as a file holds it.
#[derive(Debug)]
pub struct RawTag {
    pub std_key: Option<TagKey>,
    pub key: String,
    pub value: TagValue,
}

impl RawTag {
    /// The name under which the tag is listed.
    pub open spec fn name(&self) -> Seq<char> {
        match self.std_key {
            Some(k) => key_name(k),
            None => unicode_lower(self.key@),
        }
    }

    /// The text of the tag's value; binary values have none.
    pub open spec fn content(&self) -> Option<Seq<char>> {
        match self.value {
            TagValue::Text(s) => Some(s@),
            TagValue::Boolean(b) => Some(if b { "true"@ } else { "false"@ }),
            TagValue::Unsigned(n) => Some(decimal(n as nat)),
            TagValue::Signed(n) => Some(signed_decimal(n as int)),
            TagValue::Fraction(s) => Some(s@),
            TagValue::Binary => None,
            TagValue::Flag => Some("true"@),
        }
    }
}

/// The map that a list of tags gives: the first value of each name, binary
/// values left out.
pub open spec fn tag_map(tags: Seq<RawTag>) -> Seq<(Seq<char>, Seq<char>)>
    decreases tags.len(),
{
    if tags.len() == 0 {
        Seq::empty()
    } else {
        match tags.last().content() {
            Some(v) => placed(tag_map(tags.drop_last()), tags.last().name(), v),
            None => tag_map(tags.drop_last()),
        }
    }
}

fn tag_name(tag: &RawTag) -> (r: String)
    ensures
        r@ == tag.name(),
{
    match &tag.std_key {
        Some(k) => std_key_name(k),
        None => tag.key.as_str().to_lowercase(),
    }
}

fn tag_content(tag: &RawTag) -> (r: Option<String>)
    ensures
        opt_text(r) == tag.content(),
{
    match &tag.value {
        TagValue::Text(s) => Some(s.clone()),
        TagValue::Boolean(b) => if *b {
            Some("true".to_owned())
        } else {
            Some("false".to_owned())
        },
        TagValue::Unsigned(n) => Some(decimal_text(*n)),
        TagValue::Signed(n) => Some(signed_text(*n)),
        TagValue::Fraction(s) => Some(s.clone()),
        TagValue::Binary => None,
        TagValue::Flag => Some("true".to_owned()),
    }
}

pub fn collect_tags(tags: &[RawTag]) -> (r: TextMap)
    ensures
        r.wf(),
        r@ == tag_map(tags@),
{
    let mut map = TextMap::new();
    let mut i: usize = 0;
    while i < tags.len()
        invariant
            i <= tags@.len(),
            map.wf(),
            map@ == tag_map(tags@.take(i as int)),
        decreases tags@.len() - i,
    {
        let tag = &tags[i];
        assert(tags@.take(i + 1).drop_last() =~= tags@.take(i as int));
        assert(tags@.take(i + 1).last() == tags@[i as int]);
        if let Some(value) = tag_content(tag) {
            map.insert_if_absent(tag_name(tag), value);
        }
        i = i + 1;
    }
    assert(tags@.take(tags@.len() as int) =~= tags@);
    map
}

// ---- video facts ----------------------------------------------------------

/// What a prober reports of one stream of a file.
#[derive(Debug)]
pub struct RawStream {
    /// `video`, `audio`, or something else.
    pub kind: Option<String>,
    pub codec: Option<String>,
    /// Whether the stream is a picture that is attached to the file.
    pub attached_picture: bool,
    pub width: Option<u32>,
    pub height: Option<u32>,
    pub frame_rate: Option<String>,
    pub bits_per_second: Option<u64>,
    pub pixel_format: Option<String>,
    pub sample_rate_hz: Option<u32>,
    pub channels: Option<u8>,
}

/// What a prober reports of a video file, before it is put together.
#[derive(Debug)]
pub struct RawVideo {
    pub path: String,
    pub container: String,
    pub duration_secs: Option<Secs>,
    pub streams: Vec<RawStream>,
    pub tags: Vec<RawTag>,
}

/// A bit rate in whole kilobits, where that fits 32 bits.
pub open spec fn whole_kbps(bits_per_second: Option<u64>) -> Option<u32> {
    match bits_per_second {
        Some(n) => if n / 1000 <= u32::MAX {
            Some((n / 1000) as u32)
        } else {
            None
        },
        None => None,
    }
}

fn to_kbps(bits_per_second: Option<u64>) -> (r: Option<u32>)
    ensures
        r == whole_kbps(bits_per_second),
{
    match bits_per_second {
        Some(n) => if n / 1000 <= u32::MAX as u64 {
            Some((n / 1000) as u32)
        } else {
            None
        },
        None => None,
    }
}

impl RawStream {
    /// Whether the stream is moving pictures.
    pub open spec fn is_video(&self) -> bool {
        opt_text(self.kind) == Some("video"@) && !self.attached_picture
    }

    /// Whether the stream is sound.
    pub open spec fn is_audio(&self) -> bool {
        opt_text(self.kind) == Some("audio"@)
    }

    pub open spec fn codec_name(&self) -> Seq<char> {
        match self.codec {
            Some(c) => c@,
            None => "unknown"@,
        }
    }

    /// Whether `v` says what this stream says. A side that is not known is 0.
    pub open spec fn gives_video(&self, v: VideoStream) -> bool {
        &&& v.codec@ == self.codec_name()
        &&& v.width == (match self.width {
            Some(n) => n,
            None => 0,
        })
        &&& v.height == (match self.height {
            Some(n) => n,
            None => 0,
        })
        &&& opt_text(v.frame_rate) == opt_text(self.frame_rate)
        &&& v.bitrate_kbps == whole_kbps(self.bits_per_second)
        &&& opt_text(v.pixel_format) == opt_text(self.pixel_format)
    }

    /// Whether `a` says what this stream says.
    pub open spec fn gives_audio(&self, a: AudioStream) -> bool {
        &&& a.codec@ == self.codec_name()
        &&& a.sample_rate_hz == self.sample_rate_hz
        &&& a.channels == self.channels
        &&& a.bitrate_kbps == whole_kbps(self.bits_per_second)
    }
}

/// The streams with moving pictures, in their order.
pub open spec fn video_among(streams: Seq<RawStream>) -> Seq<RawStream>
    decreases streams.len(),
{
    if streams.len() == 0 {
        Seq::empty()
    } else if streams.last().is_video() {
        video_among(streams.drop_last()).push(streams.last())
    } else {
        video_among(streams.drop_last())
    }
}

/// The streams with sound, in their order.
pub open spec fn audio_among(streams: Seq<RawStream>) -> Seq<RawStream>
    decreases streams.len(),
{
    if streams.len() == 0 {
        Seq::empty()
    } else if streams.last().is_audio() {
        audio_among(streams.drop_last()).push(streams.last())
    } else {
        audio_among(streams.drop_last())
    }
}

/// Whether the streams of a video file are the given ones, one for one.
pub open spec fn holds_streams(
    video: Seq<VideoStream>,
    audio: Seq<AudioStream>,
    streams: Seq<RawStream>,
) -> bool {
    &&& video.len() == video_among(streams).len()
    &&& forall|i: int|
        0 <= i < video.len() ==> video_among(streams)[i].gives_video(#[trigger] video[i])
    &&& audio.len() == audio_among(streams).len()
    &&& forall|i: int|
        0 <= i < audio.len() ==> audio_among(streams)[i].gives_audio(#[trigger] audio[i])
}

/// Puts together what a prober reports of a video file. Attached pictures are no
/// video, and streams of other kinds are left out.
pub fn video_info(raw: RawVideo) -> (r: VideoInfo)
    ensures
        r.path@ == raw.path@,
        r.container@ == raw.container@,
        r.duration_secs == raw.duration_secs,
        holds_streams(r.video_streams@, r.audio_streams@, raw.streams@),
        r.tags.wf(),
        r.tags@ == tag_map(raw.tags@),
{
    let mut video_streams: Vec<VideoStream> = Vec::new();
    let mut audio_streams: Vec<AudioStream> = Vec::new();
    let mut i: usize = 0;
    while i < raw.streams.len()
        invariant
            i <= raw.streams@.len(),
            holds_streams(video_streams@, audio_streams@, raw.streams@.take(i as int)),
        decreases raw.streams@.len() - i,
    {
        let s = &raw.streams[i];
        assert(raw.streams@.take(i + 1).drop_last() =~= raw.streams@.take(i as int));
        assert(raw.streams@.take(i + 1).last() == raw.streams@[i as int]);
        let codec = match &s.codec {
            Some(c) => c.clone(),
            None => "unknown".to_owned(),
        };
        if opt_is(&s.kind, "video") {
            assert("video"@ != "audio"@) by {
                reveal_strlit("video");
                reveal_strlit("audio");
                assert("video"@[0] != "audio"@[0]);
            }
            if !s.attached_picture {
                video_streams.push(
                    VideoStream {
                        codec,
                        width: s.width.unwrap_or(0),
                        height: s.height.unwrap_or(0),
                        frame_rate: s.frame_rate.clone(),
                        bitrate_kbps: to_kbps(s.bits_per_second),
                        pixel_format: s.pixel_format.clone(),
                    },
                );
            }
        } else if opt_is(&s.kind, "audio") {
            audio_streams.push(
                AudioStream {
                    codec,
                    sample_rate_hz: s.sample_rate_hz,
                    channels: s.channels,
                    bitrate_kbps: to_kbps(s.bits_per_second),
                },
            );
        }
        i = i + 1;
    }
    assert(raw.streams@.take(raw.streams@.len() as int) =~= raw.streams@);
    VideoInfo {
        path: raw.path,
        container: raw.container,
        duration_secs: raw.duration_secs,
        video_streams,
        audio_streams,
        tags: collect_tags(raw.tags.as_slice()),
    }
}

// ---- audio facts ----------------------------------------------------------

/// What the readers found out about an audio file, before it is put together.
#[derive(Debug)]
pub struct RawAudio {
    pub path: String,
    pub extension: Option<String>,
    pub codec: CodecKind,
    pub sample_rate_hz: Option<u32>,
    pub channels: Option<u8>,
    pub bits_per_sample: Option<u32>,
    pub bits_per_coded_sample: Option<u32>,
    pub duration_secs: Option<Secs>,
    pub bitrate_kbps: Option<u32>,
    pub has_artwork: bool,
    /// Tags of the container itself.
    pub format_tags: Option<Vec<RawTag>>,
    /// Tags that were found while the container was sought.
    pub log_tags: Option<Vec<RawTag>>,
    /// The facts of the box tree of an MP4 file.
    pub mp4: Option<Mp4AacInfo>,
}

impl RawAudio {
    /// The container by the extension, in lower case.
    pub open spec fn container(&self) -> Seq<char> {
        match self.extension {
            Some(e) => unicode_lower(e@),
            None => unicode_lower("unknown"@),
        }
    }

    /// The tags: those of the container, unless there are none.
    pub open spec fn tags(&self) -> Seq<(Seq<char>, Seq<char>)> {
        if self.format_tags matches Some(t) && tag_map(t@).len() > 0 {
            tag_map(self.format_tags->0@)
        } else {
            match self.log_tags {
                Some(t) => tag_map(t@),
                None => Seq::empty(),
            }
        }
    }

    /// The box tree facts, where the extension is one of the MP4 family and the
    /// boxes could be read.
    pub open spec fn boxes(&self) -> Option<Mp4AacInfo> {
        match (self.extension, self.mp4) {
            (Some(e), Some(m)) => if names_iso_bmff(e@) && m.parsed {
                Some(m)
            } else {
                None
            },
            _ => None,
        }
    }
}

fn reads_boxes(extension: &Option<String>, mp4: &Mp4AacInfo) -> (r: bool)
    ensures
        r == (extension matches Some(e) && names_iso_bmff(e@) && mp4.parsed),
{
    match extension {
        Some(e) => is_iso_bmff_audio_ext(e.as_str()) && mp4.parsed,
        None => false,
    }
}

fn chosen_tags(format_tags: &Option<Vec<RawTag>>, log_tags: &Option<Vec<RawTag>>) -> (r: TextMap)
    ensures
        r.wf(),
        r@ == (if format_tags matches Some(t) && tag_map(t@).len() > 0 {
            tag_map(format_tags->0@)
        } else {
            match log_tags {
                Some(t) => tag_map(t@),
                None => Seq::empty(),
            }
        }),
{
    if let Some(t) = format_tags {
        let map = collect_tags(t.as_slice());
        if !map.is_empty() {
            return map;
        }
    }
    match log_tags {
        Some(t) => collect_tags(t.as_slice()),
        None => TextMap::new(),
    }
}

/// Puts together what is known of an audio file.
pub fn audio_info(raw: RawAudio) -> (r: AudioInfo)
    ensures
        r.path@ == raw.path@,
        r.container@ == raw.container(),
        r.codec@ == codec_name(raw.codec),
        r.sample_rate_hz == raw.sample_rate_hz,
        r.channels == raw.channels,
        r.bits_per_sample == (if raw.bits_per_sample is Some {
            raw.bits_per_sample
        } else {
            raw.bits_per_coded_sample
        }),
        r.duration_secs == raw.duration_secs,
        r.bitrate_kbps == raw.bitrate_kbps,
        r.tags.wf(),
        r.tags@ == raw.tags(),
        match raw.boxes() {
            Some(m) => {
                &&& opt_text(r.profile) == opt_text(m.profile)
                &&& r.priming_samples == m.priming_samples
                &&& r.has_chapters == m.has_chapters
                &&& r.has_artwork == (raw.has_artwork || m.has_artwork)
            },
            None => {
                &&& r.profile is None
                &&& r.priming_samples is None
                &&& !r.has_chapters
                &&& r.has_artwork == raw.has_artwork
            },
        },
{
    let tags = chosen_tags(&raw.format_tags, &raw.log_tags);
    let container = match &raw.extension {
        Some(e) => e.as_str().to_lowercase(),
        None => "unknown".to_lowercase(),
    };
    let bits_per_sample = match raw.bits_per_sample {
        Some(n) => Some(n),
        None => raw.bits_per_coded_sample,
    };
    let mut info = AudioInfo {
        path: raw.path,
        container,
        codec: codec_type_to_str(raw.codec).to_owned(),
        sample_rate_hz: raw.sample_rate_hz,
        channels: raw.channels,
        bits_per_sample,
        duration_secs: raw.duration_secs,
        bitrate_kbps: raw.bitrate_kbps,
        has_artwork: raw.has_artwork,
        profile: None,
        priming_samples: None,
        has_chapters: false,
        tags,
    };
    if let Some(m) = raw.mp4 {
        if reads_boxes(&raw.extension, &m) {
            info.profile = m.profile;
            info.priming_samples = m.priming_samples;
            info.has_chapters = m.has_chapters;
            info.has_artwork = raw.has_artwork || m.has_artwork;
        }
    }
    info
}

/// The profile of an audiobook: one of those that devices tell apart. Any other
/// counts as not known.
pub open spec fn known_profile(profile: Option<String>) -> Option<String> {
    if opt_text(profile) == Some("LC"@) || opt_text(profile) == Some("HE-AAC"@) || opt_text(profile)
        == Some("HE-AACv2"@) {
        profile
    } else {
        None
    }
}

/// The facts of an audio file by which it is judged as an audiobook.
pub open spec fn facts_of(info: AudioInfo) -> AudiobookFacts {
    AudiobookFacts {
        codec: info.codec,
        profile: known_profile(info.profile),
        sample_rate_hz: info.sample_rate_hz,
        channels: info.channels,
        bitrate_kbps: info.bitrate_kbps,
        priming_samples: info.priming_samples,
        has_chapters: Some(info.has_chapters),
        has_artwork: Some(info.has_artwork),
        container: info.container,
    }
}

/// The facts by which an audiobook is copied or encoded anew.
pub fn audiobook_facts(info: &AudioInfo) -> (r: AudiobookFacts)
    ensures
        r == facts_of(*info),
        r.codec@ == info.codec@,
        opt_text(r.profile) == opt_text(known_profile(info.profile)),
        r.sample_rate_hz == info.sample_rate_hz,
        r.channels == info.channels,
        r.bitrate_kbps == info.bitrate_kbps,
        r.priming_samples == info.priming_samples,
        r.has_chapters == Some(info.has_chapters),
        r.has_artwork == Some(info.has_artwork),
        r.container@ == info.container@,
{
    let known = opt_is(&info.profile, "LC") || opt_is(&info.profile, "HE-AAC") || opt_is(
        &info.profile,
        "HE-AACv2",
    );
    AudiobookFacts {
        codec: info.codec.clone(),
        profile: if known {
            info.profile.clone()
        } else {
            None
        },
        sample_rate_hz: info.sample_rate_hz,
        channels: info.channels,
        bitrate_kbps: info.bitrate_kbps,
        priming_samples: info.priming_samples,
        has_chapters: Some(info.has_chapters),
        has_artwork: Some(info.has_artwork),
        container: info.container.clone(),
    }
}

/// Only MP4 facts can say that a file has no priming: without an edit list that
/// was read, the priming of an audiobook is unknown.
pub proof fn law_unseen_priming_is_unknown(raw: RawAudio, info: AudioInfo, facts: AudiobookFacts)
    requires
        raw.boxes() is None,
        call_ensures(audio_info, (raw,), info),
        call_ensures(audiobook_facts, (&info,), facts),
    ensures
        facts.priming_samples is None,
        forall|rate: u32, channels: u8|
            (#[trigger] artifact_fault(facts, rate, channels)) is Some,
{
}

// ---- laws -----------------------------------------------------------------

/// A codec has one name and a name one codec: no two codecs read alike.
pub proof fn law_codecs_have_names_of_their_own(
    a: CodecKind,
    b: CodecKind,
    ra: &'static str,
    rb: &'static str,
)
    requires
        call_ensures(codec_type_to_str, (a,), ra),
        call_ensures(codec_type_to_str, (b,), rb),
    ensures
        ra@ == rb@ ==> a == b,
        ra@ == "mp1"@ <==> a == CodecKind::Mp1,
        ra@ == "mp2"@ <==> a == CodecKind::Mp2,
        ra@ == "mp3"@ <==> a == CodecKind::Mp3,
        ra@ == "aac"@ <==> a == CodecKind::Aac,
        ra@ == "flac"@ <==> a == CodecKind::Flac,
        ra@ == "vorbis"@ <==> a == CodecKind::Vorbis,
        ra@ == "opus"@ <==> a == CodecKind::Opus,
        ra@ == "alac"@ <==> a == CodecKind::Alac,
        ra@ == "pcm_s8"@ <==> a == CodecKind::PcmS8,
        ra@ == "pcm_u8"@ <==> a == CodecKind::PcmU8,
        ra@ == "pcm_s16le"@ <==> a == CodecKind::PcmS16Le,
        ra@ == "pcm_s16be"@ <==> a == CodecKind::PcmS16Be,
        ra@ == "pcm_u16le"@ <==> a == CodecKind::PcmU16Le,
        ra@ == "pcm_u16be"@ <==> a == CodecKind::PcmU16Be,
        ra@ == "pcm_s24le"@ <==> a == CodecKind::PcmS24Le,
        ra@ == "pcm_s24be"@ <==> a == CodecKind::PcmS24Be,
        ra@ == "pcm_s32le"@ <==> a == CodecKind::PcmS32Le,
        ra@ == "pcm_s32be"@ <==> a == CodecKind::PcmS32Be,
        ra@ == "pcm_f32le"@ <==> a == CodecKind::PcmF32Le,
        ra@ == "pcm_f32be"@ <==> a == CodecKind::PcmF32Be,
        ra@ == "pcm_f64le"@ <==> a == CodecKind::PcmF64Le,
        ra@ == "pcm_f64be"@ <==> a == CodecKind::PcmF64Be,
        ra@ == "null"@ <==> a == CodecKind::Null,
        ra@ == "unknown"@ <==> a == CodecKind::Unknown,
{
    reveal_strlit("mp1");
    reveal_strlit("mp2");
    reveal_strlit("mp3");
    reveal_strlit("aac");
    reveal_strlit("flac");
    reveal_strlit("vorbis");
    reveal_strlit("opus");
    reveal_strlit("alac");
    reveal_strlit("pcm_s8");
    reveal_strlit("pcm_u8");
    reveal_strlit("pcm_s16le");
    reveal_strlit("pcm_s16be");
    reveal_strlit("pcm_u16le");
    reveal_strlit("pcm_u16be");
    reveal_strlit("pcm_s24le");
    reveal_strlit("pcm_s24be");
    reveal_strlit("pcm_s32le");
    reveal_strlit("pcm_s32be");
    reveal_strlit("pcm_f32le");
    reveal_strlit("pcm_f32be");
    reveal_strlit("pcm_f64le");
    reveal_strlit("pcm_f64be");
    reveal_strlit("null");
    reveal_strlit("unknown");
    assert("mp1"@.len() == 3);
    assert("mp2"@.len() == 3);
    assert("mp3"@.len() == 3);
    assert("aac"@.len() == 3);
    assert("flac"@.len() == 4);
    assert("vorbis"@.len() == 6);
    assert("opus"@.len() == 4);
    assert("alac"@.len() == 4);
    assert("pcm_s8"@.len() == 6);
    assert("pcm_u8"@.len() == 6);
    assert("pcm_s16le"@.len() == 9);
    assert("pcm_s16be"@.len() == 9);
    assert("pcm_u16le"@.len() == 9);
    assert("pcm_u16be"@.len() == 9);
    assert("pcm_s24le"@.len() == 9);
    assert("pcm_s24be"@.len() == 9);
    assert("pcm_s32le"@.len() == 9);
    assert("pcm_s32be"@.len() == 9);
    assert("pcm_f32le"@.len() == 9);
    assert("pcm_f32be"@.len() == 9);
    assert("pcm_f64le"@.len() == 9);
    assert("pcm_f64be"@.len() == 9);
    assert("null"@.len() == 4);
    assert("unknown"@.len() == 7);
    assert("mp2"@[2] != "mp1"@[2]);
    assert("mp3"@[2] != "mp1"@[2]);
    assert("mp3"@[2] != "mp2"@[2]);
    assert("aac"@[0] != "mp1"@[0]);
    assert("aac"@[0] != "mp2"@[0]);
    assert("aac"@[0] != "mp3"@[0]);
    assert("opus"@[0] != "flac"@[0]);
    assert("alac"@[0] != "flac"@[0]);
    assert("alac"@[0] != "opus"@[0]);
    assert("pcm_s8"@[0] != "vorbis"@[0]);
    assert("pcm_u8"@[0] != "vorbis"@[0]);
    assert("pcm_u8"@[4] != "pcm_s8"@[4]);
    assert("pcm_s16be"@[7] != "pcm_s16le"@[7]);
    assert("pcm_u16le"@[4] != "pcm_s16le"@[4]);
    assert("pcm_u16le"@[4] != "pcm_s16be"@[4]);
    assert("pcm_u16be"@[4] != "pcm_s16le"@[4]);
    assert("pcm_u16be"@[4] != "pcm_s16be"@[4]);
    assert("pcm_u16be"@[7] != "pcm_u16le"@[7]);
    assert("pcm_s24le"@[5] != "pcm_s16le"@[5]);
    assert("pcm_s24le"@[5] != "pcm_s16be"@[5]);
    assert("pcm_s24le"@[4] != "pcm_u16le"@[4]);
    assert("pcm_s24le"@[4] != "pcm_u16be"@[4]);
    assert("pcm_s24be"@[5] != "pcm_s16le"@[5]);
    assert("pcm_s24be"@[5] != "pcm_s16be"@[5]);
    assert("pcm_s24be"@[4] != "pcm_u16le"@[4]);
    assert("pcm_s24be"@[4] != "pcm_u16be"@[4]);
    assert("pcm_s24be"@[7] != "pcm_s24le"@[7]);
    assert("pcm_s32le"@[5] != "pcm_s16le"@[5]);
    assert("pcm_s32le"@[5] != "pcm_s16be"@[5]);
    assert("pcm_s32le"@[4] != "pcm_u16le"@[4]);
    assert("pcm_s32le"@[4] != "pcm_u16be"@[4]);
    assert("pcm_s32le"@[5] != "pcm_s24le"@[5]);
    assert("pcm_s32le"@[5] != "pcm_s24be"@[5]);
    assert("pcm_s32be"@[5] != "pcm_s16le"@[5]);
    assert("pcm_s32be"@[5] != "pcm_s16be"@[5]);
    assert("pcm_s32be"@[4] != "pcm_u16le"@[4]);
    assert("pcm_s32be"@[4] != "pcm_u16be"@[4]);
    assert("pcm_s32be"@[5] != "pcm_s24le"@[5]);
    assert("pcm_s32be"@[5] != "pcm_s24be"@[5]);
    assert("pcm_s32be"@[7] != "pcm_s32le"@[7]);
    assert("pcm_f32le"@[4] != "pcm_s16le"@[4]);
    assert("pcm_f32le"@[4] != "pcm_s16be"@[4]);
    assert("pcm_f32le"@[4] != "pcm_u16le"@[4]);
    assert("pcm_f32le"@[4] != "pcm_u16be"@[4]);
    assert("pcm_f32le"@[4] != "pcm_s24le"@[4]);
    assert("pcm_f32le"@[4] != "pcm_s24be"@[4]);
    assert("pcm_f32le"@[4] != "pcm_s32le"@[4]);
    assert("pcm_f32le"@[4] != "pcm_s32be"@[4]);
    assert("pcm_f32be"@[4] != "pcm_s16le"@[4]);
    assert("pcm_f32be"@[4] != "pcm_s16be"@[4]);
    assert("pcm_f32be"@[4] != "pcm_u16le"@[4]);
    assert("pcm_f32be"@[4] != "pcm_u16be"@[4]);
    assert("pcm_f32be"@[4] != "pcm_s24le"@[4]);
    assert("pcm_f32be"@[4] != "pcm_s24be"@[4]);
    assert("pcm_f32be"@[4] != "pcm_s32le"@[4]);
    assert("pcm_f32be"@[4] != "pcm_s32be"@[4]);
    assert("pcm_f32be"@[7] != "pcm_f32le"@[7]);
    assert("pcm_f64le"@[4] != "pcm_s16le"@[4]);
    assert("pcm_f64le"@[4] != "pcm_s16be"@[4]);
    assert("pcm_f64le"@[4] != "pcm_u16le"@[4]);
    assert("pcm_f64le"@[4] != "pcm_u16be"@[4]);
    assert("pcm_f64le"@[4] != "pcm_s24le"@[4]);
    assert("pcm_f64le"@[4] != "pcm_s24be"@[4]);
    assert("pcm_f64le"@[4] != "pcm_s32le"@[4]);
    assert("pcm_f64le"@[4] != "pcm_s32be"@[4]);
    assert("pcm_f64le"@[5] != "pcm_f32le"@[5]);
    assert("pcm_f64le"@[5] != "pcm_f32be"@[5]);
    assert("pcm_f64be"@[4] != "pcm_s16le"@[4]);
    assert("pcm_f64be"@[4] != "pcm_s16be"@[4]);
    assert("pcm_f64be"@[4] != "pcm_u16le"@[4]);
    assert("pcm_f64be"@[4] != "pcm_u16be"@[4]);
    assert("pcm_f64be"@[4] != "pcm_s24le"@[4]);
    assert("pcm_f64be"@[4] != "pcm_s24be"@[4]);
    assert("pcm_f64be"@[4] != "pcm_s32le"@[4]);
    assert("pcm_f64be"@[4] != "pcm_s32be"@[4]);
    assert("pcm_f64be"@[5] != "pcm_f32le"@[5]);
    assert("pcm_f64be"@[5] != "pcm_f32be"@[5]);
    assert("pcm_f64be"@[7] != "pcm_f64le"@[7]);
    assert("null"@[0] != "flac"@[0]);
    assert("null"@[0] != "opus"@[0]);
    assert("null"@[0] != "alac"@[0]);
}

/// A standard tag is listed under a name that no other standard tag has; any
/// further one under its own name in lower case.
pub proof fn law_tags_have_names_of_their_own(a: TagKey, r: String)
    requires
        call_ensures(std_key_name, (&a,), r),
    ensures
        a matches TagKey::Other(name) ==> r@ == unicode_lower(name@),
        !(a is Other) ==> {
            &&& r@ == "title"@ <==> a is TrackTitle
            &&& r@ == "artist"@ <==> a is Artist
            &&& r@ == "album"@ <==> a is Album
            &&& r@ == "album_artist"@ <==> a is AlbumArtist
            &&& r@ == "track"@ <==> a is TrackNumber
            &&& r@ == "track_total"@ <==> a is TrackTotal
            &&& r@ == "disc"@ <==> a is DiscNumber
            &&& r@ == "disc_total"@ <==> a is DiscTotal
            &&& r@ == "date"@ <==> a is Date
            &&& r@ == "original_date"@ <==> a is OriginalDate
            &&& r@ == "genre"@ <==> a is Genre
            &&& r@ == "comment"@ <==> a is Comment
            &&& r@ == "composer"@ <==> a is Composer
            &&& r@ == "lyrics"@ <==> a is Lyrics
            &&& r@ == "label"@ <==> a is Label
            &&& r@ == "bpm"@ <==> a is Bpm
            &&& r@ == "encoded_by"@ <==> a is EncodedBy
            &&& r@ == "encoder"@ <==> a is Encoder
            &&& r@ == "copyright"@ <==> a is Copyright
        },
{
    reveal_strlit("title");
    reveal_strlit("artist");
    reveal_strlit("album");
    reveal_strlit("album_artist");
    reveal_strlit("track");
    reveal_strlit("track_total");
    reveal_strlit("disc");
    reveal_strlit("disc_total");
    reveal_strlit("date");
    reveal_strlit("original_date");
    reveal_strlit("genre");
    reveal_strlit("comment");
    reveal_strlit("composer");
    reveal_strlit("lyrics");
    reveal_strlit("label");
    reveal_strlit("bpm");
    reveal_strlit("encoded_by");
    reveal_strlit("encoder");
    reveal_strlit("copyright");
    assert("title"@.len() == 5);
    assert("artist"@.len() == 6);
    assert("album"@.len() == 5);
    assert("album_artist"@.len() == 12);
    assert("track"@.len() == 5);
    assert("track_total"@.len() == 11);
    assert("disc"@.len() == 4);
    assert("disc_total"@.len() == 10);
    assert("date"@.len() == 4);
    assert("original_date"@.len() == 13);
    assert("genre"@.len() == 5);
    assert("comment"@.len() == 7);
    assert("composer"@.len() == 8);
    assert("lyrics"@.len() == 6);
    assert("label"@.len() == 5);
    assert("bpm"@.len() == 3);
    assert("encoded_by"@.len() == 10);
    assert("encoder"@.len() == 7);
    assert("copyright"@.len() == 9);
    assert("album"@[0] != "title"@[0]);
    assert("track"@[1] != "title"@[1]);
    assert("track"@[0] != "album"@[0]);
    assert("date"@[1] != "disc"@[1]);
    assert("genre"@[0] != "title"@[0]);
    assert("genre"@[0] != "album"@[0]);
    assert("genre"@[0] != "track"@[0]);
    assert("lyrics"@[0] != "artist"@[0]);
    assert("label"@[0] != "title"@[0]);
    assert("label"@[0] != "album"@[0]);
    assert("label"@[0] != "track"@[0]);
    assert("label"@[0] != "genre"@[0]);
    assert("encoded_by"@[0] != "disc_total"@[0]);
    assert("encoder"@[0] != "comment"@[0]);
}

/// The facts of a file are told as the file has them: of sound its codec, of a
/// video those of its first streams, and both under one container and length.
pub proof fn law_media_facts_are_those_of_the_first_streams(
    info: MediaInfo,
    container: &str,
    video: Option<String>,
    audio: Option<String>,
    dims: Option<(u32, u32)>,
    length: Option<Secs>,
    summary: String,
)
    requires
        call_ensures(MediaInfo::container, (&info,), container),
        call_ensures(MediaInfo::video_codec, (&info,), video),
        call_ensures(MediaInfo::audio_codec, (&info,), audio),
        call_ensures(MediaInfo::dimensions, (&info,), dims),
        call_ensures(MediaInfo::duration_secs, (&info,), length),
        call_ensures(MediaInfo::codec_summary, (&info,), summary),
    ensures
        info matches MediaInfo::Audio(a) ==> {
            &&& container@ == a.container@
            &&& length == a.duration_secs
            &&& audio matches Some(c) && c@ == a.codec@
            &&& video is None && dims is None
            &&& summary@ == a.codec@
        },
        info matches MediaInfo::Video(v) ==> {
            &&& container@ == v.container@
            &&& length == v.duration_secs
            &&& v.video_streams@.len() > 0 ==> {
                &&& video matches Some(c) && c@ == v.video_streams@[0].codec@
                &&& dims == Some((v.video_streams@[0].width, v.video_streams@[0].height))
            }
            &&& v.video_streams@.len() == 0 ==> video is None && dims is None
            &&& v.audio_streams@.len() > 0 ==> (audio matches Some(c) && c@
                == v.audio_streams@[0].codec@)
            &&& v.audio_streams@.len() == 0 ==> audio is None
            &&& video is Some && audio is Some ==> summary@ == video->0@ + "/"@ + audio->0@
            &&& video is Some && audio is None ==> summary@ == video->0@
            &&& video is None && audio is Some ==> summary@ == audio->0@
            &&& video is None && audio is None ==> summary@.len() == 0
        },
{
}

/// A file is in a format exactly where both its codec and its container are
/// those of the format, in any case.
pub proof fn law_formats_match_in_codec_and_container(
    info: AudioInfo,
    codec: &str,
    container: &str,
    r: bool,
)
    requires
        call_ensures(AudioInfo::matches_codec, (&info, codec, container), r),
    ensures
        r <==> lower(info.codec@) == lower(codec@) && lower(info.container@) == lower(container@),
{
}

/// Of the tags of one name the first with a text counts, under that name.
pub proof fn law_first_tag_of_a_name_counts(tags: &[RawTag], r: TextMap, i: int)
    requires
        call_ensures(collect_tags, (tags,), r),
        0 <= i < tags@.len(),
        tags@[i].content() is Some,
        forall|j: int|
            0 <= j < i ==> (#[trigger] tags@[j]).content() is None || tags@[j].name()
                != tags@[i].name(),
    ensures
        lookup(r@, tags@[i].name()) == tags@[i].content(),
{
    lemma_tags_looked_up(tags@, i);
}

proof fn lemma_tags_looked_up(tags: Seq<RawTag>, i: int)
    requires
        0 <= i < tags.len(),
        tags[i].content() is Some,
        forall|j: int|
            0 <= j < i ==> (#[trigger] tags[j]).content() is None || tags[j].name()
                != tags[i].name(),
    ensures
        lookup(tag_map(tags), tags[i].name()) == tags[i].content(),
    decreases tags.len(),
{
    let front = tags.drop_last();
    lemma_tag_keys_ascend(front);
    if i == tags.len() - 1 {
        assert forall|j: int| 0 <= j < front.len() implies (#[trigger] front[j]).content() is None
            || front[j].name() != tags[i].name() by {
            assert(front[j] == tags[j]);
        }
        lemma_absent_tag(front, tags[i].name());
        law_first_value_wins(tag_map(front), tags[i].name(), tags[i].content()->0);
    } else {
        assert(front[i] == tags[i]);
        assert forall|j: int| 0 <= j < i implies (#[trigger] front[j]).content() is None
            || front[j].name() != front[i].name() by {
            assert(front[j] == tags[j]);
        }
        lemma_tags_looked_up(front, i);
        if let Some(v) = tags.last().content() {
            if tags.last().name() == tags[i].name() {
                law_first_value_wins(tag_map(front), tags[i].name(), v);
            } else {
                law_other_keys_stay(tag_map(front), tags.last().name(), v, tags[i].name());
            }
        }
    }
}

proof fn lemma_tag_keys_ascend(tags: Seq<RawTag>)
    ensures
        keys_ascend(tag_map(tags)),
    decreases tags.len(),
{
    if tags.len() > 0 {
        lemma_tag_keys_ascend(tags.drop_last());
        if let Some(v) = tags.last().content() {
            law_placed_keys_ascend(tag_map(tags.drop_last()), tags.last().name(), v);
        }
    }
}

proof fn lemma_absent_tag(tags: Seq<RawTag>, name: Seq<char>)
    requires
        forall|j: int|
            0 <= j < tags.len() ==> (#[trigger] tags[j]).content() is None || tags[j].name()
                != name,
    ensures
        lookup(tag_map(tags), name) is None,
    decreases tags.len(),
{
    if tags.len() > 0 {
        let front = tags.drop_last();
        assert forall|j: int| 0 <= j < front.len() implies (#[trigger] front[j]).content() is None
            || front[j].name() != name by {
            assert(front[j] == tags[j]);
        }
        lemma_absent_tag(front, name);
        assert(tags[tags.len() - 1] == tags.last());
        if let Some(v) = tags.last().content() {
            law_other_keys_stay(tag_map(front), tags.last().name(), v, name);
        }
    }
}

/// A tag is named by its standard key, else by its own key in lower case, and its
/// value is told in words: texts as they are, numbers in decimal, flags as true;
/// binary values are not told.
pub proof fn law_tag_values_are_told_in_words(tags: &[RawTag], r: TextMap)
    requires
        call_ensures(collect_tags, (tags,), r),
        tags@.len() == 1,
    ensures
        ({
            let tag = tags@[0];
            &&& tag.value is Binary ==> r@.len() == 0
            &&& !(tag.value is Binary) ==> {
                let (name, content) = r@[0];
                &&& r@.len() == 1
                &&& tag.std_key is None ==> name == unicode_lower(tag.key@)
                &&& tag.std_key matches Some(k) ==> name == key_name(k)
                &&& tag.value matches TagValue::Text(s) ==> content == s@
                &&& tag.value matches TagValue::Fraction(s) ==> content == s@
                &&& tag.value matches TagValue::Unsigned(n) ==> content == decimal(n as nat)
                &&& tag.value matches TagValue::Signed(n) ==> content == signed_decimal(n as int)
                &&& tag.value is Flag ==> content == "true"@
                &&& tag.value == TagValue::Boolean(true) ==> content == "true"@
                &&& tag.value == TagValue::Boolean(false) ==> content == "false"@
            }
        }),
{
    reveal_with_fuel(tag_map, 2);
    assert(tags@.drop_last() =~= Seq::<RawTag>::empty());
    assert(tags@.last() == tags@[0]);
}

/// The streams of a video are those that are told to be pictures and are not
/// attached ones, and those that are told to be sound, each in its order and each
/// as it was told; a bit rate is told in whole thousands.
pub proof fn law_video_files_keep_their_streams(
    raw: RawVideo,
    r: VideoInfo,
    i: int,
    tags: &[RawTag],
    listed: TextMap,
)
    requires
        call_ensures(video_info, (raw,), r),
        call_ensures(collect_tags, (tags,), listed),
        tags@ == raw.tags@,
    ensures
        r.tags@ == listed@,
        r.path@ == raw.path@,
        r.container@ == raw.container@,
        r.duration_secs == raw.duration_secs,
        ({
            let pictures = raw.streams@.filter(
                |s: RawStream| opt_text(s.kind) == Some("video"@) && !s.attached_picture,
            );
            let sounds = raw.streams@.filter(|s: RawStream| opt_text(s.kind) == Some("audio"@));
            &&& r.video_streams@.len() == pictures.len()
            &&& r.audio_streams@.len() == sounds.len()
            &&& 0 <= i < pictures.len() ==> {
                let v = r.video_streams@[i];
                let s = pictures[i];
                &&& v.codec@ == (if s.codec is Some {
                    s.codec->0@
                } else {
                    "unknown"@
                })
                &&& s.width matches Some(n) ==> v.width == n
                &&& s.height matches Some(n) ==> v.height == n
                &&& s.width is None ==> v.width == 0
                &&& s.height is None ==> v.height == 0
                &&& opt_text(v.frame_rate) == opt_text(s.frame_rate)
                &&& opt_text(v.pixel_format) == opt_text(s.pixel_format)
                &&& v.bitrate_kbps matches Some(k) ==> (s.bits_per_second matches Some(n) && 1000
                    * k <= n < 1000 * k + 1000)
                &&& s.bits_per_second matches Some(n) ==> n < 1000 * 0x1_0000_0000
                    ==> v.bitrate_kbps is Some
            }
            &&& 0 <= i < sounds.len() ==> {
                let a = r.audio_streams@[i];
                let s = sounds[i];
                &&& a.codec@ == (if s.codec is Some {
                    s.codec->0@
                } else {
                    "unknown"@
                })
                &&& a.sample_rate_hz == s.sample_rate_hz
                &&& a.channels == s.channels
                &&& a.bitrate_kbps matches Some(k) ==> (s.bits_per_second matches Some(n) && 1000
                    * k <= n < 1000 * k + 1000)
                &&& s.bits_per_second matches Some(n) ==> n < 1000 * 0x1_0000_0000
                    ==> a.bitrate_kbps is Some
            }
        }),
{
    lemma_streams_kept(raw.streams@);
    if 0 <= i < r.video_streams@.len() {
        assert(video_among(raw.streams@)[i].gives_video(r.video_streams@[i]));
    }
    if 0 <= i < r.audio_streams@.len() {
        assert(audio_among(raw.streams@)[i].gives_audio(r.audio_streams@[i]));
    }
}

proof fn lemma_streams_kept(streams: Seq<RawStream>)
    ensures
        video_among(streams) == streams.filter(
            |s: RawStream| opt_text(s.kind) == Some("video"@) && !s.attached_picture,
        ),
        audio_among(streams) == streams.filter(
            |s: RawStream| opt_text(s.kind) == Some("audio"@),
        ),
    decreases streams.len(),
{
    reveal(Seq::filter);
    if streams.len() > 0 {
        lemma_streams_kept(streams.drop_last());
    }
}

/// What the readers found out about an audio file goes through as it is; the box
/// tree adds what it says only where it was read from a file of its family.
pub proof fn law_audio_files_keep_what_was_read(raw: RawAudio, r: AudioInfo)
    requires
        call_ensures(audio_info, (raw,), r),
    ensures
        r.path@ == raw.path@,
        r.codec@ == codec_name(raw.codec),
        r.sample_rate_hz == raw.sample_rate_hz,
        r.channels == raw.channels,
        r.duration_secs == raw.duration_secs,
        r.bitrate_kbps == raw.bitrate_kbps,
        raw.bits_per_sample is Some ==> r.bits_per_sample == raw.bits_per_sample,
        raw.bits_per_sample is None ==> r.bits_per_sample == raw.bits_per_coded_sample,
        raw.extension matches Some(e) ==> r.container@ == unicode_lower(e@),
        raw.mp4 matches Some(m) ==> raw.extension matches Some(e) ==> m.parsed && names_iso_bmff(e@)
            ==> {
            &&& opt_text(r.profile) == opt_text(m.profile)
            &&& r.priming_samples == m.priming_samples
            &&& r.has_chapters == m.has_chapters
            &&& r.has_artwork == (raw.has_artwork || m.has_artwork)
        },
        raw.mp4 is None || raw.extension is None ==> r.profile is None && r.priming_samples is None
            && !r.has_chapters && r.has_artwork == raw.has_artwork,
        raw.mp4 matches Some(m) ==> raw.extension matches Some(e) ==> !m.parsed || !names_iso_bmff(
            e@,
        ) ==> r.profile is None && r.priming_samples is None && !r.has_chapters && r.has_artwork
            == raw.has_artwork,
        raw.format_tags matches Some(t) ==> tag_map(t@).len() > 0 ==> r.tags@ == tag_map(t@),
        raw.log_tags matches Some(t) ==> raw.format_tags is None ==> r.tags@ == tag_map(t@),
        raw.log_tags is None && raw.format_tags is None ==> r.tags@.len() == 0,
        raw.format_tags matches Some(t) ==> raw.log_tags matches Some(l) ==> tag_map(t@).len() == 0
            ==> r.tags@ == tag_map(l@),
        raw.extension is None ==> r.container@ == unicode_lower("unknown"@),
{
}

/// The facts of an audiobook are those of the file; a profile that devices do not
/// tell apart counts as unknown.
pub proof fn law_audiobook_facts_are_those_of_the_file(info: AudioInfo, r: AudiobookFacts)
    requires
        call_ensures(audiobook_facts, (&info,), r),
    ensures
        r.codec@ == info.codec@,
        r.container@ == info.container@,
        r.sample_rate_hz == info.sample_rate_hz,
        r.channels == info.channels,
        r.bitrate_kbps == info.bitrate_kbps,
        r.priming_samples == info.priming_samples,
        r.has_chapters == Some(info.has_chapters),
        r.has_artwork == Some(info.has_artwork),
        info.profile is None ==> r.profile is None,
        info.profile matches Some(p) ==> (if p@ == "LC"@ || p@ == "HE-AAC"@ || p@ == "HE-AACv2"@ {
            r.profile matches Some(q) && q@ == p@
        } else {
            r.profile is None
        }),
{
}

} // verus!
