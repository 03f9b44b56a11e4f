//! The execution graph: a frozen plan with every parameter explicit.

use crate::host::{
    hash_bytes, is_random_uuid, lemma_hex_text_injective, new_id, now, sha256, sha256_hex, Secs,
    Timestamp,
};
use crate::text::{opt_text, same_text};
use crate::text_map::TextMap;
use vstd::prelude::*;
use vstd::string::*;
use vstd::utf8::encode_utf8;

verus! {

pub const GRAPH_SCHEMA_VERSION: &'static str = "1.1";

/// Whether a node encodes audio alone or a video file with its audio track.
#[derive(Debug, Clone, Copy, PartialEq, Eq, Structural)]
pub enum MediaType {
    Audio,
    Video,
}

impl Default for MediaType {
    fn default() -> (r: Self)
        ensures
            r == MediaType::Audio,
    {
        MediaType::Audio
    }
}

/// Cheap facts by which a source is recognised again. Not a content hash: the
/// outputs are derivatives for a device, not archival copies.
#[derive(Debug)]
pub struct SourceFingerprint {
    pub size_bytes: u64,
    pub modified_at: Timestamp,
    pub duration_secs: Option<Secs>,
    pub codec_summary: String,
}

impl Clone for SourceFingerprint {
    fn clone(&self) -> (r: Self)
        ensures
            r == *self,
    {
        SourceFingerprint {
            size_bytes: self.size_bytes,
            modified_at: self.modified_at,
            duration_secs: self.duration_secs,
            codec_summary: self.codec_summary.clone(),
        }
    }
}

/// How many frames to keep of a source whose trailing padding is known.
#[derive(Debug, Clone, Copy, PartialEq, Eq, Structural)]
pub struct GaplessTrim {
    pub output_frames: u64,
}

/// Fully resolved encoding parameters. Video fields are absent on audio nodes.
#[derive(Debug)]
pub struct EncodeParams {
    pub media_type: MediaType,
    pub container: String,
    pub extension: String,
    pub cbr: bool,
    /// The codec of the output, or of the audio track of a video.
    pub audio_codec: String,
    pub audio_bitrate_kbps: Option<u32>,
    pub sample_rate_hz: u32,
    pub channels: u8,
    pub preserve_artwork: bool,
    pub video_codec: Option<String>,
    pub video_bitrate_kbps: Option<u32>,
    pub width: Option<u32>,
    pub height: Option<u32>,
    /// Frames per second, as it is written on a command line.
    pub frame_rate: Option<String>,
    pub pixel_format: Option<String>,
    pub video_filter: Option<String>,
    pub video_profile: Option<String>,
    pub video_level: Option<String>,
    pub poster_artwork_path: Option<String>,
    pub hwaccel: Option<String>,
    pub movflags: Option<String>,
    pub audio_block_size: Option<u32>,
    pub gapless_trim: Option<GaplessTrim>,
    /// Requested AAC encoder priming in PCM samples.
    pub aac_priming: Option<u32>,
    /// Further options of the adapter.
    pub extra: TextMap,
}

impl EncodeParams {
    /// Whether two sets of parameters agree in every field.
    pub open spec fn agrees(&self, other: EncodeParams) -> bool {
        &&& other == (EncodeParams { extra: other.extra, ..*self })
        &&& self.extra@ == other.extra@
    }
}

impl Clone for EncodeParams {
    fn clone(&self) -> (r: Self)
        ensures
            self.agrees(r),
    {
        EncodeParams {
            media_type: self.media_type,
            container: self.container.clone(),
            extension: self.extension.clone(),
            cbr: self.cbr,
            audio_codec: self.audio_codec.clone(),
            audio_bitrate_kbps: self.audio_bitrate_kbps,
            sample_rate_hz: self.sample_rate_hz,
            channels: self.channels,
            preserve_artwork: self.preserve_artwork,
            video_codec: self.video_codec.clone(),
            video_bitrate_kbps: self.video_bitrate_kbps,
            width: self.width,
            height: self.height,
            frame_rate: self.frame_rate.clone(),
            pixel_format: self.pixel_format.clone(),
            video_filter: self.video_filter.clone(),
            video_profile: self.video_profile.clone(),
            video_level: self.video_level.clone(),
            poster_artwork_path: self.poster_artwork_path.clone(),
            hwaccel: self.hwaccel.clone(),
            movflags: self.movflags.clone(),
            audio_block_size: self.audio_block_size,
            gapless_trim: self.gapless_trim,
            aac_priming: self.aac_priming,
            extra: self.extra.clone(),
        }
    }
}

/// A single encode with all its parameters resolved.
#[derive(Debug)]
pub struct ExecutionNode {
    pub id: u128,
    /// The place of the node in its graph.
    pub sequence: u32,
    pub input_path: String,
    pub input: SourceFingerprint,
    pub output_path: String,
    /// The adapter that runs this node.
    pub adapter: String,
    pub params: EncodeParams,
}

/// A resolved plan, ready to run.
#[derive(Debug)]
pub struct ExecutionGraph {
    pub schema_version: String,
    pub graph_id: u128,
    pub created_at: Timestamp,
    /// The SHA-256 digest of the canonical text of the nodes, in hexadecimal.
    pub graph_hash: String,
    pub nodes: Vec<ExecutionNode>,
}

/// The digest of the canonical text of a graph's nodes.
pub fn compute_graph_hash(canonical: &str) -> (r: String)
    ensures
        r@ == sha256_hex(encode_utf8(canonical@)),
        r@.len() == 64,
{
    hash_bytes(canonical.as_bytes())
}

impl ExecutionGraph {
    /// Whether the recorded digest is the one of the given canonical text.
    pub open spec fn hash_holds(&self, canonical: Seq<char>) -> bool {
        self.graph_hash@ == sha256_hex(encode_utf8(canonical))
    }

    /// Freezes the nodes under a fresh identifier. `canonical` is the canonical
    /// text of the nodes.
    pub fn new(nodes: Vec<ExecutionNode>, canonical: &str) -> (r: ExecutionGraph)
        ensures
            r.schema_version@ == GRAPH_SCHEMA_VERSION@,
            is_random_uuid(r.graph_id),
            r.hash_holds(canonical@),
            r.graph_hash@.len() == 64,
            r.nodes == nodes,
    {
        let graph_id: u128 = new_id();
        let graph_hash = compute_graph_hash(canonical);
        ExecutionGraph {
            schema_version: GRAPH_SCHEMA_VERSION.to_string(),
            graph_id,
            created_at: now(),
            graph_hash,
            nodes,
        }
    }

    /// Whether the graph is intact: its digest is that of the canonical text of
    /// the nodes it has now.
    pub fn verify_hash(&self, canonical: &str) -> (r: bool)
        ensures
            r == self.hash_holds(canonical@),
    {
        same_text(compute_graph_hash(canonical).as_str(), self.graph_hash.as_str())
    }
}

impl ExecutionNode {
    /// Whether two nodes agree in every field.
    pub open spec fn agrees(&self, other: ExecutionNode) -> bool {
        &&& other == (ExecutionNode { params: other.params, ..*self })
        &&& self.params.agrees(other.params)
    }
}

/// Whether two lists hold the same nodes in the same order.
pub open spec fn same_nodes(a: Seq<ExecutionNode>, b: Seq<ExecutionNode>) -> bool {
    &&& a.len() == b.len()
    &&& forall|i: int| 0 <= i < a.len() ==> (#[trigger] a[i]).agrees(b[i])
}

/// The digest vouches for the nodes, and for nothing else. Let a graph be made of
/// some nodes and changed in whatever way but for its digest, and let the
/// canonical texts of what it had and of what it has agree just where the nodes
/// do. It is intact if it still holds the same nodes, though its identifier, its
/// time or its version be others. If its nodes differ in any field or in their
/// order, it is intact only where two texts that differ have the same SHA-256
/// digest.
pub proof fn law_digest_vouches_for_the_nodes(
    nodes: Vec<ExecutionNode>,
    made_of: &str,
    made: ExecutionGraph,
    changed: ExecutionGraph,
    has_now: &str,
    intact: bool,
)
    requires
        call_ensures(ExecutionGraph::new, (nodes, made_of), made),
        changed.graph_hash@ == made.graph_hash@,
        has_now@ == made_of@ <==> same_nodes(changed.nodes@, nodes@),
        call_ensures(ExecutionGraph::verify_hash, (&changed, has_now), intact),
    ensures
        same_nodes(changed.nodes@, nodes@) ==> intact,
        !same_nodes(changed.nodes@, nodes@) ==> {
            &&& made_of@ != has_now@
            &&& intact <==> sha256(encode_utf8(made_of@)) == sha256(encode_utf8(has_now@))
        },
{
    assert(made.hash_holds(made_of@));
    assert(changed.hash_holds(made_of@));
    law_changed_digest_is_noticed(changed, made_of@, has_now@);
}

/// A graph is intact as long as its nodes are the ones it was made of.
pub proof fn law_fresh_graph_is_intact(
    nodes: Vec<ExecutionNode>,
    canonical: &str,
    graph: ExecutionGraph,
    intact: bool,
)
    requires
        call_ensures(ExecutionGraph::new, (nodes, canonical), graph),
        call_ensures(ExecutionGraph::verify_hash, (&graph, canonical), intact),
    ensures
        intact,
{
}

/// A graph made of one text is intact over another just where both have the same
/// SHA-256 digest: whatever changes the digest of the nodes is noticed.
pub proof fn law_changed_digest_is_noticed(graph: ExecutionGraph, made: Seq<char>, now: Seq<char>)
    requires
        graph.hash_holds(made),
    ensures
        graph.hash_holds(now) <==> sha256(encode_utf8(made)) == sha256(encode_utf8(now)),
{
    if graph.hash_holds(now) {
        lemma_hex_text_injective(sha256(encode_utf8(made)), sha256(encode_utf8(now)));
    }
}

/// A copy of a set of parameters is the same in every one of them.
pub proof fn law_copied_parameters_are_the_same(p: EncodeParams, r: EncodeParams)
    requires
        call_ensures(EncodeParams::clone, (&p,), r),
    ensures
        r.media_type == p.media_type,
        r.container@ == p.container@,
        r.extension@ == p.extension@,
        r.cbr == p.cbr,
        r.audio_codec@ == p.audio_codec@,
        r.audio_bitrate_kbps == p.audio_bitrate_kbps,
        r.sample_rate_hz == p.sample_rate_hz,
        r.channels == p.channels,
        r.preserve_artwork == p.preserve_artwork,
        opt_text(r.video_codec) == opt_text(p.video_codec),
        r.video_bitrate_kbps == p.video_bitrate_kbps,
        r.width == p.width,
        r.height == p.height,
        opt_text(r.frame_rate) == opt_text(p.frame_rate),
        opt_text(r.pixel_format) == opt_text(p.pixel_format),
        opt_text(r.video_filter) == opt_text(p.video_filter),
        opt_text(r.video_profile) == opt_text(p.video_profile),
        opt_text(r.video_level) == opt_text(p.video_level),
        opt_text(r.poster_artwork_path) == opt_text(p.poster_artwork_path),
        opt_text(r.hwaccel) == opt_text(p.hwaccel),
        opt_text(r.movflags) == opt_text(p.movflags),
        r.audio_block_size == p.audio_block_size,
        r.gapless_trim == p.gapless_trim,
        r.aac_priming == p.aac_priming,
        r.extra@ == p.extra@,
{
}

/// A copy of a fingerprint is the same in everything a source is recognised by.
pub proof fn law_copied_fingerprints_are_the_same(f: SourceFingerprint, r: SourceFingerprint)
    requires
        call_ensures(SourceFingerprint::clone, (&f,), r),
    ensures
        r.size_bytes == f.size_bytes,
        r.modified_at == f.modified_at,
        r.duration_secs == f.duration_secs,
        r.codec_summary@ == f.codec_summary@,
{
}

/// A graph is made of its nodes, under the version of its form.
pub proof fn law_graphs_hold_their_nodes(
    nodes: Vec<ExecutionNode>,
    canonical: &str,
    r: ExecutionGraph,
    digest: String,
)
    requires
        call_ensures(ExecutionGraph::new, (nodes, canonical), r),
        call_ensures(compute_graph_hash, (canonical,), digest),
    ensures
        r.schema_version@ == "1.1"@,
        r.nodes == nodes,
        r.graph_hash@ == digest@,
        digest@.len() == 64,
{
}

/// What is not said to be a video is sound.
pub proof fn law_media_is_sound_by_default(r: MediaType)
    requires
        call_ensures(MediaType::default, (), r),
    ensures
        r == MediaType::Audio,
{
}

/// The digest of a graph is that of the bytes of its canonical text.
pub proof fn law_graphs_are_hashed_by_their_text(
    canonical: &str,
    bytes: &[u8],
    r: String,
    digest: String,
)
    requires
        call_ensures(compute_graph_hash, (canonical,), r),
        call_ensures(hash_bytes, (bytes,), digest),
        bytes@ == encode_utf8(canonical@),
    ensures
        r@ == digest@,
{
}

} // verus!
