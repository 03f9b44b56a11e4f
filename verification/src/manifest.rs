//! The manifest of a run, and the verification of what it lists.
//!
//! An artifact is judged as a build system judges one: it exists, it has the
//! recorded shape (container, codecs and dimensions), and its duration is sane.
//! Its bytes are not compared.

use crate::graph::{ExecutionGraph, ExecutionNode};
use crate::host::{is_random_uuid, new_id, now, Secs, Timestamp};
use crate::probe::MediaInfo;
use crate::text::{decimal, decimal_text, lower, opt_text, same_ignoring_case};
use vstd::prelude::*;
use vstd::string::*;

verus! {

pub const MANIFEST_SCHEMA_VERSION: &'static str = "2.0";

/// What became of a node.
#[derive(Debug)]
pub enum ArtifactStatus {
    /// Encoded in this run.
    Success,
    /// Found intact from an earlier run, and not encoded again.
    CarriedForward { from_manifest_id: u128 },
    /// The encode failed.
    Failed { error: String },
    /// Left out on purpose.
    Skipped { reason: String },
}

impl ArtifactStatus {
    pub open spec fn good(&self) -> bool {
        self is Success || self is CarriedForward
    }

    /// Whether the artifact is there and can be used.
    pub fn is_good(&self) -> (r: bool)
        ensures
            r == self.good(),
    {
        matches!(self, ArtifactStatus::Success | ArtifactStatus::CarriedForward { .. })
    }
}

/// The facts recorded of an artifact.
#[derive(Debug)]
pub struct ArtifactRecord {
    pub node_id: u128,
    pub output_path: String,
    pub size_bytes: u64,
    pub duration_ms: Option<u64>,
    pub container: String,
    pub video_codec: Option<String>,
    pub audio_codec: Option<String>,
    pub width: Option<u32>,
    pub height: Option<u32>,
    pub encode_elapsed_ms: u64,
    pub verified_at: Option<Timestamp>,
    pub status: ArtifactStatus,
}

/// The record of a run.
#[derive(Debug)]
pub struct TranscodeManifest {
    pub schema_version: String,
    pub manifest_id: u128,
    pub completed_at: Timestamp,
    pub total_elapsed_ms: u64,
    pub success_count: usize,
    pub failure_count: usize,
    pub carried_forward_count: usize,
    /// The manifest that this run resumed from.
    pub resumed_from: Option<u128>,
    pub graph: ExecutionGraph,
    pub artifacts: Vec<ArtifactRecord>,
}

/// The outcome of a verification.
#[derive(Debug)]
pub enum VerificationStatus {
    /// Everything is as it was recorded.
    Intact,
    Missing,
    /// The file is there, with no bytes.
    Empty,
    /// The file has bytes that no prober can read.
    Unreadable { error: String },
    /// The container, a codec or the dimensions are not the recorded ones.
    ShapeMismatch { detail: String },
    /// The duration is far from that of the source.
    DurationMismatch { expected_secs: Secs, actual_secs: Secs },
    OriginallyFailed { error: String },
    CarriedForward,
}

/// An outcome, by its texts.
pub ghost enum StatusText {
    Intact,
    Missing,
    Empty,
    Unreadable { error: Seq<char> },
    ShapeMismatch { detail: Seq<char> },
    DurationMismatch { expected_secs: Secs, actual_secs: Secs },
    OriginallyFailed { error: Seq<char> },
    CarriedForward,
}

impl View for VerificationStatus {
    type V = StatusText;

    open spec fn view(&self) -> StatusText {
        match self {
            VerificationStatus::Intact => StatusText::Intact,
            VerificationStatus::Missing => StatusText::Missing,
            VerificationStatus::Empty => StatusText::Empty,
            VerificationStatus::Unreadable { error } => StatusText::Unreadable { error: error@ },
            VerificationStatus::ShapeMismatch { detail } => StatusText::ShapeMismatch {
                detail: detail@,
            },
            VerificationStatus::DurationMismatch {
                expected_secs,
                actual_secs,
            } => StatusText::DurationMismatch {
                expected_secs: *expected_secs,
                actual_secs: *actual_secs,
            },
            VerificationStatus::OriginallyFailed { error } => StatusText::OriginallyFailed {
                error: error@,
            },
            VerificationStatus::CarriedForward => StatusText::CarriedForward,
        }
    }
}

/// The outcome for one artifact.
#[derive(Debug)]
pub struct VerificationResult {
    pub node_id: u128,
    pub output_path: String,
    pub status: VerificationStatus,
}

/// What was found at the path of an artifact.
#[derive(Debug)]
pub struct Observation {
    /// The size of the file, if there is one.
    pub size_bytes: Option<u64>,
    /// What probing found, or why it found nothing.
    pub probed: Result<MediaInfo, String>,
    /// Whether the duration found is close to that of the source: within 5% of
    /// it, or 2 seconds, whichever is larger.
    pub duration_is_close: bool,
}

/// Whether no codec was recorded, as of formats that no prober reads.
pub open spec fn is_shapeless(record: ArtifactRecord) -> bool {
    record.video_codec is None && record.audio_codec is None
}

/// Whether an artifact of an earlier run is still usable: there, with bytes, and
/// of the recorded shape as far as it can be probed.
pub open spec fn still_valid(record: ArtifactRecord, seen: Observation) -> bool {
    &&& seen.size_bytes is Some
    &&& seen.size_bytes->0 > 0
    &&& match seen.probed {
        Ok(info) => shape_fault(record, info) is None,
        Err(_) => is_shapeless(record),
    }
}

pub fn artifact_still_valid(record: &ArtifactRecord, seen: &Observation) -> (r: bool)
    ensures
        r == still_valid(*record, *seen),
{
    match seen.size_bytes {
        Some(n) => {
            if n == 0 {
                return false;
            }
        },
        None => {
            return false;
        },
    }
    match &seen.probed {
        Ok(info) => shape_drift(record, info).is_none(),
        Err(_) => record.video_codec.is_none() && record.audio_codec.is_none(),
    }
}

/// What is said of another container than the recorded one.
pub open spec fn container_detail(expected: Seq<char>, found: Seq<char>) -> Seq<char> {
    "container: expected "@ + expected + ", found "@ + found
}

/// What is said of another codec than the recorded one, or of none at all.
pub open spec fn codec_detail(
    kind: Seq<char>,
    expected: Seq<char>,
    found: Option<Seq<char>>,
) -> Seq<char> {
    kind + " codec: expected "@ + expected + ", found "@ + (match found {
        Some(c) => c,
        None => "none"@,
    })
}

/// Whether a codec that was recorded is no longer found. Case does not count.
pub open spec fn codec_drifted(recorded: Option<Seq<char>>, found: Option<Seq<char>>) -> bool {
    recorded matches Some(c) && !(found matches Some(d) && lower(d) == lower(c))
}

/// What is said of another size than the recorded one.
pub open spec fn size_detail(expected: (u32, u32), found: (u32, u32)) -> Seq<char> {
    let (a, b) = expected;
    let (c, d) = found;
    "dimensions: expected "@ + decimal(a as nat) + "x"@ + decimal(b as nat) + ", found "@ + decimal(
        c as nat,
    ) + "x"@ + decimal(d as nat)
}

/// The size in a record, where both of its sides are there.
pub open spec fn recorded_size(record: ArtifactRecord) -> Option<(u32, u32)> {
    match (record.width, record.height) {
        (Some(w), Some(h)) => Some((w, h)),
        _ => None,
    }
}

/// How the shape of a file differs from the recorded one, if it does: in its
/// container, in a codec that was recorded, or in its dimensions.
pub open spec fn shape_fault(record: ArtifactRecord, info: MediaInfo) -> Option<Seq<char>> {
    let video = opt_text(record.video_codec);
    let audio = opt_text(record.audio_codec);
    if lower(info.container_text()) != lower(record.container@) {
        Some(container_detail(record.container@, info.container_text()))
    } else if codec_drifted(video, info.video_codec_text()) {
        Some(codec_detail("video"@, video->0, info.video_codec_text()))
    } else if codec_drifted(audio, info.audio_codec_text()) {
        Some(codec_detail("audio"@, audio->0, info.audio_codec_text()))
    } else if recorded_size(record) is Some && info.frame_size() is Some && recorded_size(record)
        != info.frame_size() {
        Some(size_detail(recorded_size(record)->0, info.frame_size()->0))
    } else {
        None
    }
}

fn codec_fault(kind: &str, recorded: &Option<String>, found: &Option<String>) -> (r: Option<
    String,
>)
    ensures
        opt_text(r) == (if codec_drifted(opt_text(*recorded), opt_text(*found)) {
            Some(codec_detail(kind@, opt_text(*recorded)->0, opt_text(*found)))
        } else {
            None
        }),
{
    let expected = match recorded {
        Some(c) => c,
        None => {
            return None;
        },
    };
    let actual = match found {
        Some(d) => {
            if same_ignoring_case(d.as_str(), expected.as_str()) {
                return None;
            }
            d.as_str()
        },
        None => "none",
    };
    let mut detail = kind.to_owned();
    detail.append(" codec: expected ");
    detail.append(expected.as_str());
    detail.append(", found ");
    detail.append(actual);
    Some(detail)
}

fn shape_drift(record: &ArtifactRecord, info: &MediaInfo) -> (r: Option<String>)
    ensures
        opt_text(r) == shape_fault(*record, *info),
{
    if !same_ignoring_case(info.container(), record.container.as_str()) {
        let mut detail = "container: expected ".to_owned();
        detail.append(record.container.as_str());
        detail.append(", found ");
        detail.append(info.container());
        return Some(detail);
    }
    if let Some(detail) = codec_fault("video", &record.video_codec, &info.video_codec()) {
        return Some(detail);
    }
    if let Some(detail) = codec_fault("audio", &record.audio_codec, &info.audio_codec()) {
        return Some(detail);
    }
    if let (Some(rw), Some(rh)) = (record.width, record.height) {
        if let Some((w, h)) = info.dimensions() {
            if rw != w || rh != h {
                let mut detail = "dimensions: expected ".to_owned();
                detail.append(decimal_text(rw as u64).as_str());
                detail.append("x");
                detail.append(decimal_text(rh as u64).as_str());
                detail.append(", found ");
                detail.append(decimal_text(w as u64).as_str());
                detail.append("x");
                detail.append(decimal_text(h as u64).as_str());
                return Some(detail);
            }
        }
    }
    None
}

/// The outcome for an artifact that an encode made, by what was found.
pub open spec fn status_of(
    record: ArtifactRecord,
    node: Option<ExecutionNode>,
    seen: Observation,
) -> StatusText {
    if seen.size_bytes is None {
        StatusText::Missing
    } else if seen.size_bytes->0 == 0 {
        StatusText::Empty
    } else {
        match seen.probed {
            Err(e) => if is_shapeless(record) {
                StatusText::Intact
            } else {
                StatusText::Unreadable { error: e@ }
            },
            Ok(info) => if shape_fault(record, info) is Some {
                StatusText::ShapeMismatch { detail: shape_fault(record, info)->0 }
            } else if node is Some && node->0.input.duration_secs is Some && info.length() is Some
                && !seen.duration_is_close {
                StatusText::DurationMismatch {
                    expected_secs: node->0.input.duration_secs->0,
                    actual_secs: info.length()->0,
                }
            } else {
                StatusText::Intact
            },
        }
    }
}

pub fn check_artifact(
    record: &ArtifactRecord,
    node: Option<&ExecutionNode>,
    seen: &Observation,
) -> (r: VerificationStatus)
    ensures
        r@ == status_of(
            *record,
            match node {
                Some(n) => Some(*n),
                None => None,
            },
            *seen,
        ),
{
    match seen.size_bytes {
        None => {
            return VerificationStatus::Missing;
        },
        Some(n) => {
            if n == 0 {
                return VerificationStatus::Empty;
            }
        },
    }
    let info = match &seen.probed {
        Ok(info) => info,
        Err(e) => {
            if record.video_codec.is_none() && record.audio_codec.is_none() {
                return VerificationStatus::Intact;
            }
            return VerificationStatus::Unreadable { error: e.clone() };
        },
    };
    if let Some(detail) = shape_drift(record, info) {
        return VerificationStatus::ShapeMismatch { detail };
    }
    if let Some(n) = node {
        if let Some(actual_secs) = info.duration_secs() {
            if let Some(expected_secs) = n.input.duration_secs {
                if !seen.duration_is_close {
                    return VerificationStatus::DurationMismatch { expected_secs, actual_secs };
                }
            }
        }
    }
    VerificationStatus::Intact
}

/// The node of an identifier: the last that has it.
pub open spec fn node_with(nodes: Seq<ExecutionNode>, id: u128) -> Option<ExecutionNode>
    decreases nodes.len(),
{
    if nodes.len() == 0 {
        None
    } else if nodes.last().id == id {
        Some(nodes.last())
    } else {
        node_with(nodes.drop_last(), id)
    }
}

/// The node of an identifier.
pub fn find_node(nodes: &[ExecutionNode], id: u128) -> (r: Option<&ExecutionNode>)
    ensures
        match r {
            Some(n) => node_with(nodes@, id) == Some(*n),
            None => node_with(nodes@, id) is None,
        },
{
    let mut i: usize = nodes.len();
    assert(nodes@.take(nodes@.len() as int) =~= nodes@);
    while i > 0
        invariant
            i <= nodes@.len(),
            node_with(nodes@, id) == node_with(nodes@.take(i as int), id),
        decreases i,
    {
        assert(nodes@.take(i as int).last() == nodes@[i - 1]);
        assert(nodes@.take(i as int).drop_last() =~= nodes@.take(i - 1));
        if nodes[i - 1].id == id {
            return Some(&nodes[i - 1]);
        }
        i = i - 1;
    }
    None
}

/// The outcome for a record, whatever became of its node.
pub open spec fn outcome_of(
    record: ArtifactRecord,
    nodes: Seq<ExecutionNode>,
    seen: Observation,
) -> StatusText {
    match record.status {
        ArtifactStatus::Failed { error } => StatusText::OriginallyFailed { error: error@ },
        ArtifactStatus::Skipped { .. } => StatusText::OriginallyFailed { error: "skipped"@ },
        ArtifactStatus::CarriedForward { .. } => if still_valid(record, seen) {
            StatusText::CarriedForward
        } else {
            StatusText::Missing
        },
        ArtifactStatus::Success => status_of(record, node_with(nodes, record.node_id), seen),
    }
}

fn verify_record(record: &ArtifactRecord, nodes: &[ExecutionNode], seen: &Observation) -> (r:
    VerificationResult)
    ensures
        r.node_id == record.node_id,
        r.output_path@ == record.output_path@,
        r.status@ == outcome_of(*record, nodes@, *seen),
{
    let status = match &record.status {
        ArtifactStatus::Failed { error } => VerificationStatus::OriginallyFailed {
            error: error.clone(),
        },
        ArtifactStatus::Skipped { .. } => VerificationStatus::OriginallyFailed {
            error: "skipped".to_owned(),
        },
        ArtifactStatus::CarriedForward { .. } => {
            if artifact_still_valid(record, seen) {
                VerificationStatus::CarriedForward
            } else {
                VerificationStatus::Missing
            }
        },
        ArtifactStatus::Success => check_artifact(record, find_node(nodes, record.node_id), seen),
    };
    VerificationResult {
        node_id: record.node_id,
        output_path: record.output_path.clone(),
        status,
    }
}

impl TranscodeManifest {
    /// The manifest of a run.
    pub fn new(
        graph: ExecutionGraph,
        artifacts: Vec<ArtifactRecord>,
        total_elapsed_ms: u64,
        success_count: usize,
        failure_count: usize,
    ) -> (r: TranscodeManifest)
        ensures
            r.schema_version@ == MANIFEST_SCHEMA_VERSION@,
            is_random_uuid(r.manifest_id),
            r.total_elapsed_ms == total_elapsed_ms,
            r.success_count == success_count,
            r.failure_count == failure_count,
            r.carried_forward_count == 0,
            r.resumed_from is None,
            r.graph == graph,
            r.artifacts == artifacts,
    {
        TranscodeManifest {
            schema_version: MANIFEST_SCHEMA_VERSION.to_string(),
            manifest_id: new_id(),
            completed_at: now(),
            total_elapsed_ms,
            success_count,
            failure_count,
            carried_forward_count: 0,
            resumed_from: None,
            graph,
            artifacts,
        }
    }

    /// The manifest of a run that resumed from another.
    pub fn new_resumed(
        graph: ExecutionGraph,
        artifacts: Vec<ArtifactRecord>,
        total_elapsed_ms: u64,
        success_count: usize,
        failure_count: usize,
        carried_forward_count: usize,
        resumed_from: u128,
    ) -> (r: TranscodeManifest)
        ensures
            r.schema_version@ == MANIFEST_SCHEMA_VERSION@,
            is_random_uuid(r.manifest_id),
            r.total_elapsed_ms == total_elapsed_ms,
            r.success_count == success_count,
            r.failure_count == failure_count,
            r.carried_forward_count == carried_forward_count,
            r.resumed_from == Some(resumed_from),
            r.graph == graph,
            r.artifacts == artifacts,
    {
        TranscodeManifest {
            schema_version: MANIFEST_SCHEMA_VERSION.to_string(),
            manifest_id: new_id(),
            completed_at: now(),
            total_elapsed_ms,
            success_count,
            failure_count,
            carried_forward_count,
            resumed_from: Some(resumed_from),
            graph,
            artifacts,
        }
    }

    /// Verifies all artifacts, by what was found at the path of each.
    pub fn verify(&self, seen: &[Observation]) -> (r: Vec<VerificationResult>)
        requires
            seen@.len() == self.artifacts@.len(),
        ensures
            r@.len() == self.artifacts@.len(),
            forall|i: int|
                0 <= i < r@.len() ==> {
                    &&& (#[trigger] r@[i]).node_id == self.artifacts@[i].node_id
                    &&& r@[i].output_path@ == self.artifacts@[i].output_path@
                    &&& r@[i].status@ == outcome_of(
                        self.artifacts@[i],
                        self.graph.nodes@,
                        seen@[i],
                    )
                },
    {
        let mut results: Vec<VerificationResult> = Vec::new();
        let mut i: usize = 0;
        while i < self.artifacts.len()
            invariant
                i <= self.artifacts@.len(),
                seen@.len() == self.artifacts@.len(),
                results@.len() == i,
                forall|j: int|
                    0 <= j < i ==> {
                        &&& (#[trigger] results@[j]).node_id == self.artifacts@[j].node_id
                        &&& results@[j].output_path@ == self.artifacts@[j].output_path@
                        &&& results@[j].status@ == outcome_of(
                            self.artifacts@[j],
                            self.graph.nodes@,
                            seen@[j],
                        )
                    },
            decreases self.artifacts@.len() - i,
        {
            results.push(
                verify_record(&self.artifacts[i], self.graph.nodes.as_slice(), &seen[i]),
            );
            i = i + 1;
        }
        results
    }
}

/// How many outcomes are plain successes.
pub open spec fn ok_count(results: Seq<VerificationResult>) -> nat
    decreases results.len(),
{
    if results.len() == 0 {
        0
    } else {
        ok_count(results.drop_last()) + (if results.last().status@ is Intact {
            1nat
        } else {
            0nat
        })
    }
}

/// The plain successes among some outcomes, and all others.
pub fn count_outcomes(results: &[VerificationResult]) -> (r: (usize, usize))
    ensures
        r.0 == ok_count(results@),
        r.0 + r.1 == results@.len(),
{
    let mut ok: usize = 0;
    let mut i: usize = 0;
    while i < results.len()
        invariant
            i <= results@.len(),
            ok <= i,
            ok == ok_count(results@.take(i as int)),
        decreases results@.len() - i,
    {
        assert(results@.take(i + 1).drop_last() =~= results@.take(i as int));
        assert(results@.take(i + 1).last() == results@[i as int]);
        if matches!(results[i].status, VerificationStatus::Intact) {
            ok = ok + 1;
        }
        i = i + 1;
    }
    assert(results@.take(results@.len() as int) =~= results@);
    (ok, results.len() - ok)
}

// ---- laws -----------------------------------------------------------------

/// An artifact that verifies is usable: whatever a verification finds in order
/// would be carried forward by a run that resumes.
pub proof fn law_verified_artifacts_are_carried(
    record: ArtifactRecord,
    nodes: Seq<ExecutionNode>,
    seen: Observation,
)
    requires
        outcome_of(record, nodes, seen) is Intact,
    ensures
        record.status.good(),
        still_valid(record, seen),
{
}

/// A file whose container, codec or dimensions drifted never verifies, and no run
/// that resumes carries it forward.
pub proof fn law_drifted_files_never_verify(
    record: ArtifactRecord,
    nodes: Seq<ExecutionNode>,
    seen: Observation,
)
    requires
        seen.probed matches Ok(info) && shape_fault(record, info) is Some,
    ensures
        !(outcome_of(record, nodes, seen) is Intact),
        !(outcome_of(record, nodes, seen) is CarriedForward),
        !still_valid(record, seen),
{
}

/// A file that is gone or empty never verifies.
pub proof fn law_missing_files_never_verify(
    record: ArtifactRecord,
    nodes: Seq<ExecutionNode>,
    seen: Observation,
)
    requires
        seen.size_bytes is None || seen.size_bytes->0 == 0,
    ensures
        !(outcome_of(record, nodes, seen) is Intact),
        !(outcome_of(record, nodes, seen) is CarriedForward),
        !still_valid(record, seen),
{
}

/// Where no two nodes share an identifier, looking one up by the identifier of a
/// node gives that node.
pub proof fn lemma_node_found(nodes: Seq<ExecutionNode>, n: int)
    requires
        0 <= n < nodes.len(),
        forall|a: int, b: int|
            0 <= a < b < nodes.len() ==> (#[trigger] nodes[a]).id != (#[trigger] nodes[b]).id,
    ensures
        node_with(nodes, nodes[n].id) == Some(nodes[n]),
    decreases nodes.len(),
{
    if n < nodes.len() - 1 {
        assert(nodes.drop_last()[n] == nodes[n]);
        lemma_node_found(nodes.drop_last(), n);
    }
}

/// A lookup finds a node of the identifier wherever there is one, the last of
/// them, and nothing otherwise.
pub proof fn law_lookups_find_the_last_node(
    nodes: &[ExecutionNode],
    id: u128,
    r: Option<&ExecutionNode>,
)
    requires
        call_ensures(find_node, (nodes, id), r),
    ensures
        r is None <==> forall|i: int| 0 <= i < nodes@.len() ==> (#[trigger] nodes@[i]).id != id,
        r matches Some(n) ==> exists|i: int|
            {
                &&& 0 <= i < nodes@.len()
                &&& #[trigger] nodes@[i] == *n
                &&& n.id == id
                &&& forall|j: int| i < j < nodes@.len() ==> (#[trigger] nodes@[j]).id != id
            },
{
    lemma_last_node(nodes@, id);
}

proof fn lemma_last_node(nodes: Seq<ExecutionNode>, id: u128)
    ensures
        node_with(nodes, id) is None <==> forall|i: int|
            0 <= i < nodes.len() ==> (#[trigger] nodes[i]).id != id,
        node_with(nodes, id) matches Some(n) ==> exists|i: int|
            {
                &&& 0 <= i < nodes.len()
                &&& #[trigger] nodes[i] == n
                &&& n.id == id
                &&& forall|j: int| i < j < nodes.len() ==> (#[trigger] nodes[j]).id != id
            },
    decreases nodes.len(),
{
    if nodes.len() > 0 {
        let front = nodes.drop_last();
        lemma_last_node(front, id);
        if nodes.last().id == id {
            assert(nodes[nodes.len() - 1] == nodes.last());
        } else {
            assert forall|i: int| 0 <= i < nodes.len() implies (front.len() == i || front[i]
                == #[trigger] nodes[i]) by {}
            if node_with(front, id) is Some {
                let n = node_with(front, id)->0;
                let i = choose|i: int|
                    {
                        &&& 0 <= i < front.len()
                        &&& #[trigger] front[i] == n
                        &&& n.id == id
                        &&& forall|j: int| i < j < front.len() ==> (#[trigger] front[j]).id != id
                    };
                assert(nodes[i] == n);
            }
        }
    }
}

/// The length of an encoded file counts: a record of an encode whose node is in
/// the graph and knows how long its source is never verifies where the file found
/// has another length. Where the shape is right, the two lengths are told.
pub proof fn law_wrong_lengths_never_verify(
    m: TranscodeManifest,
    seen: &[Observation],
    r: Vec<VerificationResult>,
    i: int,
    n: int,
)
    requires
        call_ensures(TranscodeManifest::verify, (&m, seen), r),
        seen@.len() == m.artifacts@.len(),
        forall|a: int, b: int|
            0 <= a < b < m.graph.nodes@.len() ==> (#[trigger] m.graph.nodes@[a]).id != (
            #[trigger] m.graph.nodes@[b]).id,
        0 <= i < m.artifacts@.len(),
        0 <= n < m.graph.nodes@.len(),
        m.graph.nodes@[n].id == m.artifacts@[i].node_id,
        m.graph.nodes@[n].input.duration_secs is Some,
        m.artifacts@[i].status is Success,
        seen@[i].probed matches Ok(info) && info.length() is Some,
        !seen@[i].duration_is_close,
    ensures
        !(r@[i].status is Intact),
        seen@[i].size_bytes is Some && seen@[i].size_bytes->0 > 0 && !(
        r@[i].status is ShapeMismatch) ==> (r@[i].status matches VerificationStatus::DurationMismatch {
            expected_secs,
            actual_secs,
        } && Some(expected_secs) == m.graph.nodes@[n].input.duration_secs && Some(actual_secs)
            == seen@[i].probed->Ok_0.length()),
{
    lemma_node_found(m.graph.nodes@, n);
    assert(r@[i].status@ == outcome_of(m.artifacts@[i], m.graph.nodes@, seen@[i]));
}

/// What an encode made verifies only as what was recorded: there, with bytes, in
/// the recorded container, with every recorded codec and with the recorded size;
/// and a file of which all of this holds, and whose length is close, verifies.
/// Where no prober reads the file, it verifies only if no codec was recorded.
pub proof fn law_intact_files_are_as_recorded(
    m: TranscodeManifest,
    seen: &[Observation],
    r: Vec<VerificationResult>,
    i: int,
)
    requires
        call_ensures(TranscodeManifest::verify, (&m, seen), r),
        seen@.len() == m.artifacts@.len(),
        0 <= i < m.artifacts@.len(),
    ensures
        r@.len() == m.artifacts@.len(),
        r@[i].node_id == m.artifacts@[i].node_id,
        r@[i].output_path@ == m.artifacts@[i].output_path@,
        ({
            let record = m.artifacts@[i];
            let there = seen@[i].size_bytes matches Some(n) && n > 0;
            let shape_kept = seen@[i].probed matches Ok(info) && {
                &&& lower(info.container_text()) == lower(record.container@)
                &&& record.video_codec matches Some(c) ==> (info.video_codec_text() matches Some(d)
                    && lower(c@) == lower(d))
                &&& record.audio_codec matches Some(c) ==> (info.audio_codec_text() matches Some(d)
                    && lower(c@) == lower(d))
                &&& record.width matches Some(w) ==> record.height matches Some(h)
                    ==> info.frame_size() matches Some(s) ==> s.0 == w && s.1 == h
            };
            let unread = seen@[i].probed is Err;
            let shapeless = record.video_codec is None && record.audio_codec is None;
            &&& record.status is Success ==> {
                &&& r@[i].status is Intact ==> there && (shape_kept || unread && shapeless)
                &&& there && shape_kept && seen@[i].duration_is_close ==> r@[i].status is Intact
                &&& there && unread && shapeless ==> r@[i].status is Intact
                &&& r@[i].status is Missing <==> seen@[i].size_bytes is None
                &&& r@[i].status is Empty <==> seen@[i].size_bytes == Some(0u64)
                &&& r@[i].status is Unreadable <==> there && unread && !shapeless
                &&& r@[i].status is ShapeMismatch <==> there && !unread && !shape_kept
                &&& r@[i].status matches VerificationStatus::Unreadable { error }
                    ==> seen@[i].probed matches Err(e) && error@ == e@
                &&& r@[i].status is DurationMismatch ==> !seen@[i].duration_is_close
                &&& !(r@[i].status is OriginallyFailed) && !(r@[i].status is CarriedForward)
            }
            &&& record.status is CarriedForward ==> (if there && (shape_kept || unread
                && shapeless) {
                r@[i].status is CarriedForward
            } else {
                r@[i].status is Missing
            })
            &&& record.status matches ArtifactStatus::Failed { error } ==> (
            r@[i].status matches VerificationStatus::OriginallyFailed { error: said } && said@
                == error@)
            &&& record.status is Skipped ==> (
            r@[i].status matches VerificationStatus::OriginallyFailed { error: said } && said@
                == "skipped"@)
        }),
{
    let record = m.artifacts@[i];
    assert(r@[i].status@ == outcome_of(record, m.graph.nodes@, seen@[i]));
    assert(record.status is CarriedForward ==> (r@[i].status@ is CarriedForward <==> still_valid(
        record,
        seen@[i],
    )));
}

/// A verification tells what drifted: the container, the codec and its kind, or
/// the size, with what was recorded before what was found.
pub proof fn law_drift_is_told(
    record: ArtifactRecord,
    node: Option<&ExecutionNode>,
    seen: Observation,
    r: VerificationStatus,
    info: MediaInfo,
    detail: String,
)
    requires
        call_ensures(check_artifact, (&record, node, &seen), r),
        seen.probed == Ok::<MediaInfo, String>(info),
        r == (VerificationStatus::ShapeMismatch { detail }),
    ensures
        lower(info.container_text()) != lower(record.container@) ==> detail@
            == "container: expected "@ + record.container@ + ", found "@ + info.container_text(),
        lower(info.container_text()) == lower(record.container@) ==> {
            &&& record.video_codec matches Some(c) ==> info.video_codec_text() is None ==> detail@
                == "video"@ + " codec: expected "@ + c@ + ", found "@ + "none"@
            &&& record.video_codec matches Some(c) ==> info.video_codec_text() matches Some(d)
                ==> lower(c@) != lower(d) ==> detail@ == "video"@ + " codec: expected "@ + c@
                + ", found "@ + d
            &&& record.audio_codec matches Some(c) ==> record.video_codec is None
                && info.audio_codec_text() is None ==> detail@ == "audio"@ + " codec: expected "@
                + c@ + ", found "@ + "none"@
            &&& record.audio_codec matches Some(c) ==> info.audio_codec_text() matches Some(d)
                ==> record.video_codec is None && lower(c@) != lower(d) ==> detail@ == "audio"@
                + " codec: expected "@ + c@ + ", found "@ + d
            &&& record.width matches Some(w) ==> record.height matches Some(h)
                ==> info.frame_size() matches Some(s) ==> record.video_codec is None
                && record.audio_codec is None ==> detail@ == "dimensions: expected "@ + decimal(
                w as nat,
            ) + "x"@ + decimal(h as nat) + ", found "@ + decimal(s.0 as nat) + "x"@ + decimal(
                s.1 as nat,
            )
        },
{
    assert(r@ == StatusText::ShapeMismatch { detail: detail@ });
}

/// The plain successes that are counted are the outcomes that are intact, and the
/// others make up the rest.
pub proof fn law_counts_are_of_intact_files(results: &[VerificationResult], r: (usize, usize))
    requires
        call_ensures(count_outcomes, (results,), r),
    ensures
        r.0 == results@.filter(|x: VerificationResult| x.status is Intact).len(),
        r.1 == results@.filter(|x: VerificationResult| !(x.status is Intact)).len(),
{
    lemma_counts(results@);
}

proof fn lemma_counts(results: Seq<VerificationResult>)
    ensures
        ok_count(results) == results.filter(|x: VerificationResult| x.status is Intact).len(),
        results.len() - ok_count(results) == results.filter(
            |x: VerificationResult| !(x.status is Intact),
        ).len(),
    decreases results.len(),
{
    reveal(Seq::filter);
    if results.len() > 0 {
        lemma_counts(results.drop_last());
    }
}

/// A manifest says of a run what the run was: its counts, its time, its graph and
/// its records, and the manifest it resumed from where it resumed.
pub proof fn law_manifests_say_what_was_run(
    graph: ExecutionGraph,
    artifacts: Vec<ArtifactRecord>,
    ms: u64,
    good: usize,
    bad: usize,
    carried: usize,
    from: u128,
    fresh: TranscodeManifest,
    resumed: TranscodeManifest,
)
    requires
        call_ensures(TranscodeManifest::new, (graph, artifacts, ms, good, bad), fresh),
        call_ensures(
            TranscodeManifest::new_resumed,
            (graph, artifacts, ms, good, bad, carried, from),
            resumed,
        ),
    ensures
        fresh.schema_version@ == "2.0"@ && resumed.schema_version@ == "2.0"@,
        fresh.success_count == good && resumed.success_count == good,
        fresh.failure_count == bad && resumed.failure_count == bad,
        fresh.carried_forward_count == 0 && resumed.carried_forward_count == carried,
        fresh.resumed_from is None && resumed.resumed_from == Some(from),
        fresh.total_elapsed_ms == ms && resumed.total_elapsed_ms == ms,
        fresh.graph == graph && resumed.graph == graph,
        fresh.artifacts == artifacts && resumed.artifacts == artifacts,
{
}

/// An artifact can be used exactly where it was encoded or carried forward.
pub proof fn law_good_artifacts_were_made(status: ArtifactStatus, r: bool)
    requires
        call_ensures(ArtifactStatus::is_good, (&status,), r),
    ensures
        r <==> !(status is Failed) && !(status is Skipped),
{
}

} // verus!
