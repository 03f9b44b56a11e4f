//! From command-line values to a transcode request.

use crate::graph::MediaType;
use crate::spec::TranscodeSpec;
use crate::text::opt_text;
use vstd::prelude::*;
use vstd::string::*;

verus! {

/// The media kind that a caller asks for.
#[derive(Debug, Clone, Copy, PartialEq, Eq, Structural)]
pub enum CliMediaType {
    Audio,
    Video,
}

/// The values of a request, as a caller gives them.
#[derive(Debug)]
pub struct RequestArgs {
    pub media: CliMediaType,
    pub codec: Option<String>,
    pub container: Option<String>,
    pub extension: Option<String>,
    pub bitrate: Option<u32>,
    pub sample_rate: Option<u32>,
    pub channels: Option<u8>,
    pub cbr: bool,
    pub video_codec: Option<String>,
    pub video_bitrate: Option<u32>,
    pub width: Option<u32>,
    pub height: Option<u32>,
    pub frame_rate: Option<String>,
    pub pixel_format: Option<String>,
    pub video_filter: Option<String>,
    pub video_profile: Option<String>,
    pub video_level: Option<String>,
    pub poster_artwork: Option<String>,
    pub hwaccel: Option<String>,
    pub movflags: Option<String>,
    pub audio_block_size: Option<u32>,
    pub audio_only: bool,
    pub aac_priming: Option<u32>,
}

/// What a request lacks.
#[derive(Debug, Clone, Copy, PartialEq, Eq, Structural)]
pub enum RequestError {
    MissingCodec,
    MissingVideoCodec,
}

impl RequestError {
    /// The message of the error.
    pub fn message(&self) -> (r: &'static str)
        ensures
            r@ == (match self {
                RequestError::MissingCodec => "--codec must be specified"@,
                RequestError::MissingVideoCodec => "--video-codec must be specified for --media video"@,
            }),
    {
        match self {
            RequestError::MissingCodec => "--codec must be specified",
            RequestError::MissingVideoCodec => "--video-codec must be specified for --media video",
        }
    }
}

/// What a request lacks, the codec before the video codec.
pub open spec fn lacking(args: RequestArgs) -> Option<RequestError> {
    if args.codec is None {
        Some(RequestError::MissingCodec)
    } else if args.media == CliMediaType::Video && args.video_codec is None {
        Some(RequestError::MissingVideoCodec)
    } else {
        None
    }
}

/// The container that is asked for: by default it is named like the codec.
pub open spec fn wanted_container(args: RequestArgs) -> Seq<char> {
    match args.container {
        Some(c) => c@,
        None => args.codec->0@,
    }
}

/// The extension that is asked for: by default it is named like the container.
pub open spec fn wanted_extension(args: RequestArgs) -> Seq<char> {
    match args.extension {
        Some(e) => e@,
        None => wanted_container(args),
    }
}

/// Whether a request is the one that some values ask for.
pub open spec fn is_request(spec: TranscodeSpec, args: RequestArgs) -> bool {
    &&& spec.media_type == (match args.media {
        CliMediaType::Audio => MediaType::Audio,
        CliMediaType::Video => MediaType::Video,
    })
    &&& spec.container@ == wanted_container(args)
    &&& spec.extension@ == wanted_extension(args)
    &&& spec.cbr == args.cbr
    &&& Some(spec.audio_codec@) == opt_text(args.codec)
    &&& spec.audio_bitrate_kbps == args.bitrate
    &&& spec.sample_rate_hz == args.sample_rate
    &&& spec.channels == args.channels
    &&& opt_text(spec.video_codec) == opt_text(args.video_codec)
    &&& spec.video_bitrate_kbps == args.video_bitrate
    &&& spec.width == args.width
    &&& spec.height == args.height
    &&& opt_text(spec.frame_rate) == opt_text(args.frame_rate)
    &&& opt_text(spec.pixel_format) == opt_text(args.pixel_format)
    &&& opt_text(spec.video_filter) == opt_text(args.video_filter)
    &&& opt_text(spec.video_profile) == opt_text(args.video_profile)
    &&& opt_text(spec.video_level) == opt_text(args.video_level)
    &&& opt_text(spec.poster_artwork_path) == opt_text(args.poster_artwork)
    &&& opt_text(spec.hwaccel) == opt_text(args.hwaccel)
    &&& opt_text(spec.movflags) == opt_text(args.movflags)
    &&& spec.audio_block_size == args.audio_block_size
    &&& spec.preserve_artwork == !args.audio_only
    &&& spec.aac_priming == args.aac_priming
}

/// The request that some values ask for.
pub fn resolve_transcode_spec(args: &RequestArgs) -> (r: Result<TranscodeSpec, RequestError>)
    ensures
        match r {
            Ok(spec) => lacking(*args) is None && is_request(spec, *args),
            Err(e) => lacking(*args) == Some(e),
        },
{
    let codec = match &args.codec {
        Some(c) => c,
        None => {
            return Err(RequestError::MissingCodec);
        },
    };
    if args.media == CliMediaType::Video && args.video_codec.is_none() {
        return Err(RequestError::MissingVideoCodec);
    }
    let container = match &args.container {
        Some(c) => c,
        None => codec,
    };
    let extension = match &args.extension {
        Some(e) => e,
        None => container,
    };
    Ok(
        TranscodeSpec {
            media_type: match args.media {
                CliMediaType::Audio => MediaType::Audio,
                CliMediaType::Video => MediaType::Video,
            },
            container: container.clone(),
            extension: extension.clone(),
            cbr: args.cbr,
            audio_codec: codec.clone(),
            audio_bitrate_kbps: args.bitrate,
            sample_rate_hz: args.sample_rate,
            channels: args.channels,
            video_codec: args.video_codec.clone(),
            video_bitrate_kbps: args.video_bitrate,
            width: args.width,
            height: args.height,
            frame_rate: args.frame_rate.clone(),
            pixel_format: args.pixel_format.clone(),
            video_filter: args.video_filter.clone(),
            video_profile: args.video_profile.clone(),
            video_level: args.video_level.clone(),
            poster_artwork_path: args.poster_artwork.clone(),
            hwaccel: args.hwaccel.clone(),
            movflags: args.movflags.clone(),
            audio_block_size: args.audio_block_size,
            preserve_artwork: !args.audio_only,
            aac_priming: args.aac_priming,
        },
    )
}

// ---- laws -----------------------------------------------------------------

/// Everything that a caller gives goes into the request under its own name.
pub proof fn law_requests_hold_what_was_given(args: RequestArgs, spec: TranscodeSpec)
    requires
        call_ensures(resolve_transcode_spec, (&args,), Ok::<TranscodeSpec, RequestError>(spec)),
    ensures
        spec.media_type == MediaType::Video <==> args.media == CliMediaType::Video,
        args.codec matches Some(c) && spec.audio_codec@ == c@,
        spec.audio_bitrate_kbps == args.bitrate,
        spec.sample_rate_hz == args.sample_rate,
        spec.channels == args.channels,
        spec.cbr == args.cbr,
        opt_text(spec.video_codec) == opt_text(args.video_codec),
        spec.video_bitrate_kbps == args.video_bitrate,
        spec.width == args.width,
        spec.height == args.height,
        opt_text(spec.frame_rate) == opt_text(args.frame_rate),
        opt_text(spec.pixel_format) == opt_text(args.pixel_format),
        opt_text(spec.video_filter) == opt_text(args.video_filter),
        opt_text(spec.video_profile) == opt_text(args.video_profile),
        opt_text(spec.video_level) == opt_text(args.video_level),
        opt_text(spec.poster_artwork_path) == opt_text(args.poster_artwork),
        opt_text(spec.hwaccel) == opt_text(args.hwaccel),
        opt_text(spec.movflags) == opt_text(args.movflags),
        spec.audio_block_size == args.audio_block_size,
        spec.preserve_artwork <==> !args.audio_only,
        spec.aac_priming == args.aac_priming,
{
}

/// A container that is not given is named like the codec, and an extension that
/// is not given like the container.
pub proof fn law_names_that_are_not_given_follow(args: RequestArgs, spec: TranscodeSpec)
    requires
        call_ensures(resolve_transcode_spec, (&args,), Ok::<TranscodeSpec, RequestError>(spec)),
    ensures
        args.container matches Some(c) ==> spec.container@ == c@,
        args.container is None ==> spec.container@ == spec.audio_codec@,
        args.extension matches Some(e) ==> spec.extension@ == e@,
        args.extension is None ==> spec.extension@ == spec.container@,
{
}

/// A request fails exactly where it names no codec, or asks for a video and names
/// no video codec, and the message says which option is missing.
pub proof fn law_requests_need_their_codecs(
    args: RequestArgs,
    r: Result<TranscodeSpec, RequestError>,
    e: RequestError,
    message: &'static str,
)
    requires
        call_ensures(resolve_transcode_spec, (&args,), r),
        call_ensures(RequestError::message, (&e,), message),
    ensures
        r is Ok <==> args.codec is Some && (args.media == CliMediaType::Audio
            || args.video_codec is Some),
        args.codec is None ==> r == Err::<TranscodeSpec, RequestError>(RequestError::MissingCodec),
        args.codec is Some && r is Err ==> r == Err::<TranscodeSpec, RequestError>(
            RequestError::MissingVideoCodec,
        ),
        e == RequestError::MissingCodec ==> message@ == "--codec must be specified"@,
        e == RequestError::MissingVideoCodec ==> message@
            == "--video-codec must be specified for --media video"@,
{
}

} // verus!
