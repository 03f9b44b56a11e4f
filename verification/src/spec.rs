//! The transcode request: the exact shape of the artifact that is wanted.

use crate::graph::MediaType;
use vstd::prelude::*;

verus! {

/// A concrete request. An absent technical field is taken from the source.
#[derive(Debug)]
pub struct TranscodeSpec {
    pub media_type: MediaType,
    pub container: String,
    pub extension: String,
    pub cbr: bool,
    pub audio_codec: String,
    pub audio_bitrate_kbps: Option<u32>,
    pub sample_rate_hz: Option<u32>,
    pub channels: Option<u8>,
    pub video_codec: Option<String>,
    pub video_bitrate_kbps: Option<u32>,
    pub width: Option<u32>,
    pub height: Option<u32>,
    /// Frames per second, as it is written on a command line.
    pub frame_rate: Option<String>,
    pub pixel_format: Option<String>,
    pub video_filter: Option<String>,
    pub video_profile: Option<String>,
    pub video_level: Option<String>,
    pub poster_artwork_path: Option<String>,
    pub hwaccel: Option<String>,
    pub movflags: Option<String>,
    pub audio_block_size: Option<u32>,
    /// Whether embedded cover art is kept in audio outputs.
    pub preserve_artwork: bool,
    /// Requested AAC encoder priming in PCM samples. Zero asks for an audiobook
    /// without priming; an m4b/ipod output implies it.
    pub aac_priming: Option<u32>,
}

} // verus!
