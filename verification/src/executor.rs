//! The sequential executor, as a state machine: it says what to run next and
//! records what came of it. Nodes run one at a time, in the order of the graph.

use crate::adapters::{probe_output, ArtifactInfo};
use crate::error::AdapterError;
use crate::graph::{ExecutionGraph, ExecutionNode};
use crate::host::{is_random_uuid, now};
use crate::manifest::{
    artifact_still_valid, still_valid, ArtifactRecord, ArtifactStatus, Observation,
    TranscodeManifest, MANIFEST_SCHEMA_VERSION,
};
use crate::probe::MediaInfo;
use crate::progress::{Event, Phase};
use crate::resolver::ResolvedCapabilities;
use crate::text::opt_text;
use vstd::prelude::*;
use vstd::string::*;

verus! {

/// A run over a graph, so far.
#[derive(Debug)]
pub struct Run {
    /// One record for each node that is done.
    pub artifacts: Vec<ArtifactRecord>,
    pub success_count: usize,
    pub failure_count: usize,
    pub carried_forward_count: usize,
    /// How many nodes this run has to encode.
    pub total: usize,
}

/// How many records meet a condition.
pub open spec fn count_of(v: Seq<ArtifactRecord>, p: spec_fn(ArtifactStatus) -> bool) -> nat
    decreases v.len(),
{
    if v.len() == 0 {
        0
    } else {
        count_of(v.drop_last(), p) + (if p(v.last().status) {
            1nat
        } else {
            0nat
        })
    }
}

/// How many records are of artifacts encoded in this run.
pub open spec fn successes(v: Seq<ArtifactRecord>) -> nat {
    count_of(v, |s: ArtifactStatus| s is Success)
}

/// How many records are of failed encodes.
pub open spec fn failures(v: Seq<ArtifactRecord>) -> nat {
    count_of(v, |s: ArtifactStatus| s is Failed)
}

/// How many records are of artifacts carried forward.
pub open spec fn carried(v: Seq<ArtifactRecord>) -> nat {
    count_of(v, |s: ArtifactStatus| s is CarriedForward)
}

proof fn lemma_count_push(
    v: Seq<ArtifactRecord>,
    r: ArtifactRecord,
    p: spec_fn(ArtifactStatus) -> bool,
)
    ensures
        count_of(v.push(r), p) == count_of(v, p) + (if p(r.status) {
            1nat
        } else {
            0nat
        }),
{
    assert(v.push(r).drop_last() =~= v);
}

/// Whether a record is that of a node whose encode succeeded.
pub open spec fn is_success_record(
    rec: ArtifactRecord,
    node: ExecutionNode,
    info: ArtifactInfo,
    elapsed_ms: u64,
) -> bool {
    &&& rec.node_id == node.id
    &&& rec.output_path@ == info.output_path@
    &&& rec.size_bytes == info.size_bytes
    &&& rec.duration_ms == info.duration_ms
    &&& rec.container@ == info.container@
    &&& opt_text(rec.video_codec) == opt_text(info.video_codec)
    &&& opt_text(rec.audio_codec) == opt_text(info.audio_codec)
    &&& rec.width == info.width
    &&& rec.height == info.height
    &&& rec.encode_elapsed_ms == elapsed_ms
    &&& rec.verified_at is Some
    &&& rec.status is Success
}

/// Whether a record is that of a node whose encode failed.
pub open spec fn is_failure_record(
    rec: ArtifactRecord,
    node: ExecutionNode,
    error: Seq<char>,
    elapsed_ms: u64,
) -> bool {
    &&& rec.node_id == node.id
    &&& rec.output_path@ == node.output_path@
    &&& rec.size_bytes == 0
    &&& rec.duration_ms is None
    &&& rec.container@.len() == 0
    &&& rec.video_codec is None
    &&& rec.audio_codec is None
    &&& rec.width is None
    &&& rec.height is None
    &&& rec.encode_elapsed_ms == elapsed_ms
    &&& rec.verified_at is None
    &&& (rec.status matches ArtifactStatus::Failed { error: e } && e@ == error)
}

/// Whether a record is an earlier one, carried forward.
pub open spec fn is_carried_record(
    rec: ArtifactRecord,
    earlier: ArtifactRecord,
    manifest_id: u128,
) -> bool {
    &&& rec.node_id == earlier.node_id
    &&& rec.output_path@ == earlier.output_path@
    &&& rec.size_bytes == earlier.size_bytes
    &&& rec.duration_ms == earlier.duration_ms
    &&& rec.container@ == earlier.container@
    &&& opt_text(rec.video_codec) == opt_text(earlier.video_codec)
    &&& opt_text(rec.audio_codec) == opt_text(earlier.audio_codec)
    &&& rec.width == earlier.width
    &&& rec.height == earlier.height
    &&& rec.encode_elapsed_ms == earlier.encode_elapsed_ms
    &&& rec.verified_at == earlier.verified_at
    &&& rec.status == (ArtifactStatus::CarriedForward { from_manifest_id: manifest_id })
}

/// Whether an event says that a file of a node was processed.
pub open spec fn is_file_event(
    event: Event,
    current: int,
    total: usize,
    file: Seq<char>,
    output: Seq<char>,
    elapsed_ms: u64,
    failure: Option<Seq<char>>,
) -> bool {
    event matches Event::FileComplete {
        phase,
        current: c,
        total: t,
        file: f,
        output: o,
        elapsed_ms: ms,
        success,
        error,
    } && {
        &&& phase == Phase::Encode
        &&& c == current
        &&& t == total
        &&& f@ == file
        &&& opt_text(o) == Some(output)
        &&& ms == elapsed_ms
        &&& success == (failure is None)
        &&& opt_text(error) == failure
    }
}

impl Run {
    /// What holds of a run at any time: its records are those of the first nodes
    /// of the graph, in order, and its counts are those of its records.
    pub open spec fn wf(&self, graph: ExecutionGraph) -> bool {
        &&& self.artifacts@.len() <= graph.nodes@.len()
        &&& forall|i: int|
            0 <= i < self.artifacts@.len() ==> (#[trigger] self.artifacts@[i]).node_id
                == graph.nodes@[i].id
        &&& self.success_count == successes(self.artifacts@)
        &&& self.failure_count == failures(self.artifacts@)
        &&& self.carried_forward_count == carried(self.artifacts@)
        &&& self.success_count + self.failure_count + self.carried_forward_count
            == self.artifacts@.len()
    }

    /// The node whose turn it is.
    pub open spec fn node(&self, graph: ExecutionGraph) -> ExecutionNode {
        graph.nodes@[self.artifacts@.len() as int]
    }

    /// The number of the encode whose turn it is, counted from one.
    pub open spec fn current(&self) -> int {
        self.success_count + self.failure_count + 1
    }

    /// Begins a run that encodes every node.
    pub fn start(graph: &ExecutionGraph) -> (r: (Run, Event))
        ensures
            r.0.wf(*graph),
            r.0.artifacts@.len() == 0,
            r.0.total == graph.nodes@.len(),
            r.1 == (Event::PhaseStart {
                phase: Phase::Encode,
                total: Some(r.0.total),
                carrying_forward: None,
            }),
    {
        let total: usize = graph.nodes.len();
        let run = Run {
            artifacts: Vec::new(),
            success_count: 0,
            failure_count: 0,
            carried_forward_count: 0,
            total,
        };
        let event = Event::PhaseStart {
            phase: Phase::Encode,
            total: Some(total),
            carrying_forward: None,
        };
        (run, event)
    }

    /// Whether every node is done.
    pub fn is_done(&self, graph: &ExecutionGraph) -> (r: bool)
        requires
            self.wf(*graph),
        ensures
            r == (self.artifacts@.len() == graph.nodes@.len()),
    {
        self.artifacts.len() == graph.nodes.len()
    }

    /// Announces the encode of the next node, and says whether its adapter is
    /// there.
    pub fn begin(&self, graph: &ExecutionGraph, caps: &ResolvedCapabilities) -> (r: (
        Event,
        Result<(), String>,
    ))
        requires
            self.wf(*graph),
            self.artifacts@.len() < graph.nodes.len(),
        ensures
            r.0 matches Event::EncodeStart { current, total, file, output } && {
                &&& current == self.current()
                &&& total == self.total
                &&& file@ == self.node(*graph).input_path@
                &&& output@ == self.node(*graph).output_path@
            },
            r.1 is Ok <==> caps.has(self.node(*graph).adapter@),
            r.1 matches Err(e) ==> e@ == "adapter '"@ + self.node(*graph).adapter@
                + "' assigned but unavailable — planner bug"@,
    {
        let node = &graph.nodes[self.artifacts.len()];
        let event = Event::EncodeStart {
            current: self.success_count + self.failure_count + 1,
            total: self.total,
            file: node.input_path.clone(),
            output: node.output_path.clone(),
        };
        if caps.has_adapter(node.adapter.as_str()) {
            (event, Ok(()))
        } else {
            let mut e = "adapter '".to_owned();
            e.append(node.adapter.as_str());
            e.append("' assigned but unavailable — planner bug");
            (event, Err(e))
        }
    }

    /// Records what came of the node whose turn it is. A failure ends the run
    /// where it is to stop on errors: then nothing is recorded, and the error is
    /// handed back.
    pub fn record(
        &mut self,
        graph: &ExecutionGraph,
        outcome: Result<ArtifactInfo, AdapterError>,
        elapsed_ms: u64,
        stop_on_error: bool,
    ) -> (r: (Event, Option<AdapterError>))
        requires
            old(self).wf(*graph),
            old(self).artifacts@.len() < graph.nodes.len(),
        ensures
            final(self).wf(*graph),
            final(self).total == old(self).total,
            match outcome {
                Ok(info) => {
                    &&& r.1 is None
                    &&& final(self).artifacts@.len() == old(self).artifacts@.len() + 1
                    &&& final(self).artifacts@.drop_last() == old(self).artifacts@
                    &&& is_success_record(
                        final(self).artifacts@.last(),
                        old(self).node(*graph),
                        info,
                        elapsed_ms,
                    )
                    &&& is_file_event(
                        r.0,
                        old(self).current(),
                        old(self).total,
                        old(self).node(*graph).input_path@,
                        info.output_path@,
                        elapsed_ms,
                        None,
                    )
                },
                Err(e) => {
                    &&& is_file_event(
                        r.0,
                        old(self).current(),
                        old(self).total,
                        old(self).node(*graph).input_path@,
                        old(self).node(*graph).output_path@,
                        elapsed_ms,
                        Some(e.text()),
                    )
                    &&& if stop_on_error {
                        &&& r.1 == Some(e)
                        &&& *final(self) == *old(self)
                    } else {
                        &&& r.1 is None
                        &&& final(self).artifacts@.len() == old(self).artifacts@.len() + 1
                        &&& final(self).artifacts@.drop_last() == old(self).artifacts@
                        &&& is_failure_record(
                            final(self).artifacts@.last(),
                            old(self).node(*graph),
                            e.text(),
                            elapsed_ms,
                        )
                    }
                },
            },
    {
        let node = &graph.nodes[self.artifacts.len()];
        let current: usize = self.success_count + self.failure_count + 1;
        let ghost before = self.artifacts@;
        match outcome {
            Ok(info) => {
                let event = Event::FileComplete {
                    phase: Phase::Encode,
                    current,
                    total: self.total,
                    file: node.input_path.clone(),
                    output: Some(info.output_path.clone()),
                    elapsed_ms,
                    success: true,
                    error: None,
                };
                let rec = ArtifactRecord {
                    node_id: node.id,
                    output_path: info.output_path,
                    size_bytes: info.size_bytes,
                    duration_ms: info.duration_ms,
                    container: info.container,
                    video_codec: info.video_codec,
                    audio_codec: info.audio_codec,
                    width: info.width,
                    height: info.height,
                    encode_elapsed_ms: elapsed_ms,
                    verified_at: Some(now()),
                    status: ArtifactStatus::Success,
                };
                proof {
                    lemma_count_push(before, rec, |s: ArtifactStatus| s is Success);
                    lemma_count_push(before, rec, |s: ArtifactStatus| s is Failed);
                    lemma_count_push(before, rec, |s: ArtifactStatus| s is CarriedForward);
                }
                self.success_count = self.success_count + 1;
                self.artifacts.push(rec);
                assert(self.artifacts@.drop_last() =~= before);
                (event, None)
            },
            Err(e) => {
                let error = e.message();
                let event = Event::FileComplete {
                    phase: Phase::Encode,
                    current,
                    total: self.total,
                    file: node.input_path.clone(),
                    output: Some(node.output_path.clone()),
                    elapsed_ms,
                    success: false,
                    error: Some(error.clone()),
                };
                if stop_on_error {
                    return (event, Some(e));
                }
                let rec = ArtifactRecord {
                    node_id: node.id,
                    output_path: node.output_path.clone(),
                    size_bytes: 0,
                    duration_ms: None,
                    container: String::new(),
                    video_codec: None,
                    audio_codec: None,
                    width: None,
                    height: None,
                    encode_elapsed_ms: elapsed_ms,
                    verified_at: None,
                    status: ArtifactStatus::Failed { error },
                };
                proof {
                    lemma_count_push(before, rec, |s: ArtifactStatus| s is Success);
                    lemma_count_push(before, rec, |s: ArtifactStatus| s is Failed);
                    lemma_count_push(before, rec, |s: ArtifactStatus| s is CarriedForward);
                }
                self.failure_count = self.failure_count + 1;
                self.artifacts.push(rec);
                assert(self.artifacts@.drop_last() =~= before);
                (event, None)
            },
        }
    }

    /// The summary of the encodes.
    pub fn summary(&self) -> (r: Event)
        ensures
            r == (Event::PhaseComplete {
                phase: Phase::Encode,
                total: Some(self.total),
                jobs: None,
                skipped: None,
                success: Some(self.success_count),
                failed: Some(self.failure_count),
            }),
    {
        Event::PhaseComplete {
            phase: Phase::Encode,
            total: Some(self.total),
            jobs: None,
            skipped: None,
            success: Some(self.success_count),
            failed: Some(self.failure_count),
        }
    }

    /// The manifest of a run that is done.
    pub fn into_manifest(self, graph: ExecutionGraph, total_elapsed_ms: u64) -> (r:
        TranscodeManifest)
        requires
            self.wf(graph),
            self.artifacts@.len() == graph.nodes@.len(),
            self.carried_forward_count == 0,
        ensures
            r.schema_version@ == MANIFEST_SCHEMA_VERSION@,
            is_random_uuid(r.manifest_id),
            r.graph == graph,
            r.artifacts == self.artifacts,
            r.total_elapsed_ms == total_elapsed_ms,
            r.success_count == self.success_count,
            r.failure_count == self.failure_count,
            r.carried_forward_count == 0,
            r.resumed_from is None,
            is_complete(r),
    {
        TranscodeManifest::new(
            graph,
            self.artifacts,
            total_elapsed_ms,
            self.success_count,
            self.failure_count,
        )
    }

    /// The manifest of a run that is done and resumed from another.
    pub fn into_resumed_manifest(
        self,
        graph: ExecutionGraph,
        total_elapsed_ms: u64,
        resumed_from: u128,
    ) -> (r: TranscodeManifest)
        requires
            self.wf(graph),
            self.artifacts@.len() == graph.nodes@.len(),
        ensures
            r.schema_version@ == MANIFEST_SCHEMA_VERSION@,
            is_random_uuid(r.manifest_id),
            r.graph == graph,
            r.artifacts == self.artifacts,
            r.total_elapsed_ms == total_elapsed_ms,
            r.success_count == self.success_count,
            r.failure_count == self.failure_count,
            r.carried_forward_count == self.carried_forward_count,
            r.resumed_from == Some(resumed_from),
            is_complete(r),
    {
        TranscodeManifest::new_resumed(
            graph,
            self.artifacts,
            total_elapsed_ms,
            self.success_count,
            self.failure_count,
            self.carried_forward_count,
            resumed_from,
        )
    }
}

/// Whether a manifest accounts for every node of its graph: one record each, in
/// order, and counts that are those of the records.
pub open spec fn is_complete(m: TranscodeManifest) -> bool {
    &&& m.artifacts@.len() == m.graph.nodes@.len()
    &&& forall|i: int|
        0 <= i < m.artifacts@.len() ==> (#[trigger] m.artifacts@[i]).node_id
            == m.graph.nodes@[i].id
    &&& m.success_count == successes(m.artifacts@)
    &&& m.failure_count == failures(m.artifacts@)
    &&& m.carried_forward_count == carried(m.artifacts@)
    &&& m.success_count + m.failure_count + m.carried_forward_count == m.graph.nodes@.len()
}

proof fn lemma_no_failures(v: Seq<ArtifactRecord>, i: int)
    requires
        failures(v) == 0,
        0 <= i < v.len(),
    ensures
        !(v[i].status is Failed),
    decreases v.len(),
{
    if i < v.len() - 1 {
        lemma_no_failures(v.drop_last(), i);
    }
}

/// Where a manifest counts no failure, no record is of a failed encode.
pub proof fn law_no_failure_means_all_there(m: TranscodeManifest, i: int)
    requires
        is_complete(m),
        m.failure_count == 0,
        0 <= i < m.artifacts@.len(),
    ensures
        !(m.artifacts@[i].status is Failed),
{
    lemma_no_failures(m.artifacts@, i);
}

// ---- resuming -------------------------------------------------------------

/// The record that can be carried forward for a node: the last of its records
/// that is good and whose artifact is still valid.
pub open spec fn carry_source(
    artifacts: Seq<ArtifactRecord>,
    seen: Seq<Observation>,
    id: u128,
) -> Option<int>
    decreases artifacts.len(),
{
    if artifacts.len() == 0 {
        None
    } else {
        let i = artifacts.len() - 1;
        if artifacts[i].node_id == id && artifacts[i].status.good() && still_valid(
            artifacts[i],
            seen[i],
        ) {
            Some(i)
        } else {
            carry_source(artifacts.drop_last(), seen, id)
        }
    }
}

/// The record that can be carried forward for a node, by its index.
pub fn find_carry_source(artifacts: &[ArtifactRecord], seen: &[Observation], id: u128) -> (r:
    Option<usize>)
    requires
        seen@.len() == artifacts@.len(),
    ensures
        match r {
            Some(i) => carry_source(artifacts@, seen@, id) == Some(i as int) && i
                < artifacts@.len() && artifacts@[i as int].node_id == id,
            None => carry_source(artifacts@, seen@, id) is None,
        },
{
    let mut i: usize = artifacts.len();
    assert(artifacts@.take(artifacts@.len() as int) =~= artifacts@);
    while i > 0
        invariant
            i <= artifacts@.len(),
            seen@.len() == artifacts@.len(),
            carry_source(artifacts@, seen@, id) == carry_source(
                artifacts@.take(i as int),
                seen@,
                id,
            ),
        decreases i,
    {
        let a = &artifacts[i - 1];
        assert(artifacts@.take(i as int)[i - 1] == artifacts@[i - 1]);
        assert(artifacts@.take(i as int).drop_last() =~= artifacts@.take(i - 1));
        if a.node_id == id && a.status.is_good() && artifact_still_valid(a, &seen[i - 1]) {
            return Some(i - 1);
        }
        i = i - 1;
    }
    None
}

/// For each node of a graph the record that is carried forward, if there is one.
pub fn resume_plan(
    nodes: &[ExecutionNode],
    artifacts: &[ArtifactRecord],
    seen: &[Observation],
) -> (r: Vec<Option<usize>>)
    requires
        seen@.len() == artifacts@.len(),
    ensures
        r@.len() == nodes@.len(),
        forall|i: int|
            0 <= i < r@.len() ==> match #[trigger] r@[i] {
                Some(j) => carry_source(artifacts@, seen@, nodes@[i].id) == Some(j as int) && j
                    < artifacts@.len() && artifacts@[j as int].node_id == nodes@[i].id,
                None => carry_source(artifacts@, seen@, nodes@[i].id) is None,
            },
{
    let mut plan: Vec<Option<usize>> = Vec::new();
    let mut i: usize = 0;
    while i < nodes.len()
        invariant
            i <= nodes@.len(),
            seen@.len() == artifacts@.len(),
            plan@.len() == i,
            forall|k: int|
                0 <= k < i ==> match #[trigger] plan@[k] {
                    Some(j) => carry_source(artifacts@, seen@, nodes@[k].id) == Some(j as int) && j
                        < artifacts@.len() && artifacts@[j as int].node_id == nodes@[k].id,
                    None => carry_source(artifacts@, seen@, nodes@[k].id) is None,
                },
        decreases nodes@.len() - i,
    {
        plan.push(find_carry_source(artifacts, seen, nodes[i].id));
        i = i + 1;
    }
    plan
}

/// How many nodes of a plan have to be encoded.
pub open spec fn to_encode(plan: Seq<Option<usize>>) -> nat
    decreases plan.len(),
{
    if plan.len() == 0 {
        0
    } else {
        to_encode(plan.drop_last()) + (if plan.last() is None {
            1nat
        } else {
            0nat
        })
    }
}

impl Run {
    /// Begins a run that carries artifacts forward and encodes the rest.
    pub fn start_resumed(graph: &ExecutionGraph, plan: &[Option<usize>]) -> (r: (Run, Event))
        ensures
            r.0.wf(*graph),
            r.0.artifacts@.len() == 0,
            r.0.total == to_encode(plan@),
            r.1 matches Event::PhaseStart { phase, total, carrying_forward } && {
                &&& phase == Phase::Encode
                &&& total == Some(r.0.total)
                &&& carrying_forward is Some
                &&& carrying_forward->0 + r.0.total == plan@.len()
            },
    {
        let mut total: usize = 0;
        let mut i: usize = 0;
        while i < plan.len()
            invariant
                i <= plan@.len(),
                total <= i,
                total == to_encode(plan@.take(i as int)),
            decreases plan@.len() - i,
        {
            assert(plan@.take(i + 1).drop_last() =~= plan@.take(i as int));
            assert(plan@.take(i + 1).last() == plan@[i as int]);
            if plan[i].is_none() {
                total = total + 1;
            }
            i = i + 1;
        }
        assert(plan@.take(plan@.len() as int) =~= plan@);
        let run = Run {
            artifacts: Vec::new(),
            success_count: 0,
            failure_count: 0,
            carried_forward_count: 0,
            total,
        };
        let event = Event::PhaseStart {
            phase: Phase::Encode,
            total: Some(total),
            carrying_forward: Some(plan.len() - total),
        };
        (run, event)
    }

    /// Carries the artifact of an earlier run forward for the node whose turn it
    /// is.
    pub fn carry(&mut self, graph: &ExecutionGraph, earlier: &ArtifactRecord, manifest_id: u128)
        requires
            old(self).wf(*graph),
            old(self).artifacts@.len() < graph.nodes.len(),
            earlier.node_id == old(self).node(*graph).id,
        ensures
            final(self).wf(*graph),
            final(self).total == old(self).total,
            final(self).artifacts@.len() == old(self).artifacts@.len() + 1,
            final(self).artifacts@.drop_last() == old(self).artifacts@,
            is_carried_record(final(self).artifacts@.last(), *earlier, manifest_id),
    {
        let ghost before = self.artifacts@;
        let rec = ArtifactRecord {
            node_id: earlier.node_id,
            output_path: earlier.output_path.clone(),
            size_bytes: earlier.size_bytes,
            duration_ms: earlier.duration_ms,
            container: earlier.container.clone(),
            video_codec: earlier.video_codec.clone(),
            audio_codec: earlier.audio_codec.clone(),
            width: earlier.width,
            height: earlier.height,
            encode_elapsed_ms: earlier.encode_elapsed_ms,
            verified_at: earlier.verified_at,
            status: ArtifactStatus::CarriedForward { from_manifest_id: manifest_id },
        };
        proof {
            lemma_count_push(before, rec, |s: ArtifactStatus| s is Success);
            lemma_count_push(before, rec, |s: ArtifactStatus| s is Failed);
            lemma_count_push(before, rec, |s: ArtifactStatus| s is CarriedForward);
        }
        self.carried_forward_count = self.carried_forward_count + 1;
        self.artifacts.push(rec);
        assert(self.artifacts@.drop_last() =~= before);
    }
}

/// What is intact is not encoded again: where a node has a good record with a
/// valid artifact, some such record is carried forward.
pub proof fn law_intact_artifacts_are_carried(
    artifacts: Seq<ArtifactRecord>,
    seen: Seq<Observation>,
    id: u128,
    i: int,
)
    requires
        0 <= i < artifacts.len(),
        artifacts[i].node_id == id,
        artifacts[i].status.good(),
        still_valid(artifacts[i], seen[i]),
    ensures
        carry_source(artifacts, seen, id) is Some,
    decreases artifacts.len(),
{
    if i < artifacts.len() - 1 {
        law_intact_artifacts_are_carried(artifacts.drop_last(), seen, id, i);
    }
}

/// Whatever is carried forward was good and is still valid: failed, skipped,
/// missing and empty artifacts are encoded again.
pub proof fn law_only_intact_artifacts_are_carried(
    artifacts: Seq<ArtifactRecord>,
    seen: Seq<Observation>,
    id: u128,
)
    requires
        carry_source(artifacts, seen, id) is Some,
    ensures
        ({
            let i = carry_source(artifacts, seen, id)->0;
            &&& 0 <= i < artifacts.len()
            &&& artifacts[i].node_id == id
            &&& artifacts[i].status.good()
            &&& still_valid(artifacts[i], seen[i])
        }),
    decreases artifacts.len(),
{
    let i = artifacts.len() - 1;
    if !(artifacts[i].node_id == id && artifacts[i].status.good() && still_valid(
        artifacts[i],
        seen[i],
    )) {
        law_only_intact_artifacts_are_carried(artifacts.drop_last(), seen, id);
    }
}

// ---- laws -----------------------------------------------------------------

/// A run begins with no record and has every node to encode; one that resumes has
/// only those for which nothing is carried forward, and says how many are.
pub proof fn law_runs_begin_empty(
    graph: ExecutionGraph,
    plan: &[Option<usize>],
    fresh: (Run, Event),
    resumed: (Run, Event),
)
    requires
        call_ensures(Run::start, (&graph,), fresh),
        call_ensures(Run::start_resumed, (&graph, plan), resumed),
    ensures
        fresh.0.artifacts@.len() == 0 && resumed.0.artifacts@.len() == 0,
        fresh.0.success_count == 0 && fresh.0.failure_count == 0,
        resumed.0.success_count == 0 && resumed.0.failure_count == 0,
        fresh.0.carried_forward_count == 0 && resumed.0.carried_forward_count == 0,
        fresh.0.total == graph.nodes@.len(),
        resumed.0.total == plan@.filter(|x: Option<usize>| x is None).len(),
        fresh.1 matches Event::PhaseStart { phase, total, carrying_forward } && phase
            == Phase::Encode && total == Some(fresh.0.total) && carrying_forward is None,
        resumed.1 matches Event::PhaseStart { phase, total, carrying_forward } && phase
            == Phase::Encode && total == Some(resumed.0.total) && (carrying_forward matches Some(n)
            && n == plan@.filter(|x: Option<usize>| x is Some).len()),
{
    lemma_plan_counts(plan@);
}

proof fn lemma_plan_counts(plan: Seq<Option<usize>>)
    ensures
        to_encode(plan) == plan.filter(|x: Option<usize>| x is None).len(),
        plan.len() - to_encode(plan) == plan.filter(|x: Option<usize>| x is Some).len(),
    decreases plan.len(),
{
    reveal(Seq::filter);
    if plan.len() > 0 {
        lemma_plan_counts(plan.drop_last());
    }
}

/// The encode of the next node is announced by its number among the encodes, its
/// source and its output.
pub proof fn law_encodes_are_announced(
    run: Run,
    graph: ExecutionGraph,
    caps: ResolvedCapabilities,
    r: (Event, Result<(), String>),
)
    requires
        call_ensures(Run::begin, (&run, &graph, &caps), r),
    ensures
        ({
            let node = graph.nodes@[run.artifacts@.len() as int];
            &&& r.0 matches Event::EncodeStart { current, total, file, output } && {
                &&& current == run.success_count + run.failure_count + 1
                &&& total == run.total
                &&& file@ == node.input_path@
                &&& output@ == node.output_path@
            }
            &&& node.adapter@ == "ffmpeg"@ && caps.ffmpeg is Some ==> r.1 is Ok
            &&& node.adapter@ == "atrac"@ && caps.atrac is Some ==> r.1 is Ok
            &&& node.adapter@ == "wmv9"@ && caps.wmv9 is Some ==> r.1 is Ok
            &&& caps.ffmpeg is None && caps.atrac is None && caps.wmv9 is None ==> r.1 is Err
            &&& r.1 matches Err(e) ==> e@ == "adapter '"@ + node.adapter@
                + "' assigned but unavailable — planner bug"@
        }),
{
}

/// What an encode made is recorded of its node with all its facts, behind what
/// was recorded before; the successes grow by one and nothing else does.
pub proof fn law_successes_are_recorded(
    run: &mut Run,
    graph: &ExecutionGraph,
    info: ArtifactInfo,
    ms: u64,
    stop: bool,
    r: (Event, Option<AdapterError>),
)
    requires
        old(run).wf(*graph),
        call_ensures(
            Run::record,
            (run, graph, Ok::<ArtifactInfo, AdapterError>(info), ms, stop),
            r,
        ),
    ensures
        ({
            let node = graph.nodes@[old(run).artifacts@.len() as int];
            let rec = final(run).artifacts@.last();
            &&& final(run).artifacts@ == old(run).artifacts@.push(rec)
            &&& rec.node_id == node.id
            &&& rec.status is Success
            &&& rec.output_path@ == info.output_path@
            &&& rec.size_bytes == info.size_bytes
            &&& rec.duration_ms == info.duration_ms
            &&& rec.container@ == info.container@
            &&& opt_text(rec.video_codec) == opt_text(info.video_codec)
            &&& opt_text(rec.audio_codec) == opt_text(info.audio_codec)
            &&& rec.width == info.width
            &&& rec.height == info.height
            &&& rec.encode_elapsed_ms == ms
            &&& rec.verified_at is Some
            &&& final(run).success_count == old(run).success_count + 1
            &&& final(run).failure_count == old(run).failure_count
            &&& final(run).carried_forward_count == old(run).carried_forward_count
            &&& final(run).total == old(run).total
            &&& r.1 is None
            &&& r.0 matches Event::FileComplete {
                phase,
                current,
                total,
                file,
                output,
                elapsed_ms,
                success,
                error,
            } && {
                &&& phase == Phase::Encode
                &&& current == old(run).success_count + old(run).failure_count + 1
                &&& total == old(run).total
                &&& file@ == node.input_path@
                &&& output matches Some(o) && o@ == info.output_path@
                &&& elapsed_ms == ms
                &&& success
                &&& error is None
            }
        }),
{
    let before = old(run).artifacts@;
    let rec = final(run).artifacts@.last();
    assert(final(run).artifacts@ =~= before.push(rec));
    lemma_count_push(before, rec, |s: ArtifactStatus| s is Success);
    lemma_count_push(before, rec, |s: ArtifactStatus| s is Failed);
    lemma_count_push(before, rec, |s: ArtifactStatus| s is CarriedForward);
}

/// An encode that failed is recorded of its node with the error and no facts, and
/// the failures grow by one; where the run stops on errors, nothing is recorded
/// and the error is handed back. The event tells the failure either way.
pub proof fn law_failures_are_recorded(
    run: &mut Run,
    graph: &ExecutionGraph,
    e: AdapterError,
    ms: u64,
    stop: bool,
    r: (Event, Option<AdapterError>),
    message: String,
)
    requires
        old(run).wf(*graph),
        call_ensures(
            Run::record,
            (run, graph, Err::<ArtifactInfo, AdapterError>(e), ms, stop),
            r,
        ),
        call_ensures(AdapterError::message, (&e,), message),
    ensures
        ({
            let node = graph.nodes@[old(run).artifacts@.len() as int];
            let rec = final(run).artifacts@.last();
            &&& stop ==> r.1 == Some(e) && final(run).artifacts@ == old(run).artifacts@
                && final(run).failure_count == old(run).failure_count
            &&& !stop ==> {
                &&& r.1 is None
                &&& final(run).artifacts@ == old(run).artifacts@.push(rec)
                &&& rec.node_id == node.id
                &&& rec.output_path@ == node.output_path@
                &&& rec.size_bytes == 0
                &&& rec.encode_elapsed_ms == ms
                &&& rec.verified_at is None
                &&& rec.duration_ms is None && rec.width is None && rec.height is None
                &&& rec.video_codec is None && rec.audio_codec is None && rec.container@.len() == 0
                &&& rec.status matches ArtifactStatus::Failed { error } && error@ == message@
                &&& final(run).failure_count == old(run).failure_count + 1
            }
            &&& final(run).success_count == old(run).success_count
            &&& final(run).carried_forward_count == old(run).carried_forward_count
            &&& r.0 matches Event::FileComplete {
                phase,
                current,
                total,
                file,
                output,
                elapsed_ms,
                success,
                error,
            } && {
                &&& phase == Phase::Encode
                &&& current == old(run).success_count + old(run).failure_count + 1
                &&& total == old(run).total
                &&& file@ == node.input_path@
                &&& output matches Some(o) && o@ == node.output_path@
                &&& elapsed_ms == ms
                &&& !success
                &&& error matches Some(x) && x@ == message@
            }
        }),
{
    if !stop {
        let before = old(run).artifacts@;
        let rec = final(run).artifacts@.last();
        assert(final(run).artifacts@ =~= before.push(rec));
        lemma_count_push(before, rec, |s: ArtifactStatus| s is Success);
        lemma_count_push(before, rec, |s: ArtifactStatus| s is Failed);
        lemma_count_push(before, rec, |s: ArtifactStatus| s is CarriedForward);
    }
}

/// An artifact that is carried forward keeps every fact of its earlier record,
/// names the manifest it comes from, and counts as carried and nothing else.
pub proof fn law_carried_records_keep_their_facts(
    run: &mut Run,
    graph: &ExecutionGraph,
    earlier: &ArtifactRecord,
    id: u128,
)
    requires
        old(run).wf(*graph),
        call_ensures(Run::carry, (run, graph, earlier, id), ()),
    ensures
        ({
            let rec = final(run).artifacts@.last();
            &&& final(run).artifacts@ == old(run).artifacts@.push(rec)
            &&& rec.node_id == earlier.node_id
            &&& rec.output_path@ == earlier.output_path@
            &&& rec.size_bytes == earlier.size_bytes
            &&& rec.duration_ms == earlier.duration_ms
            &&& rec.container@ == earlier.container@
            &&& opt_text(rec.video_codec) == opt_text(earlier.video_codec)
            &&& opt_text(rec.audio_codec) == opt_text(earlier.audio_codec)
            &&& rec.width == earlier.width
            &&& rec.height == earlier.height
            &&& rec.encode_elapsed_ms == earlier.encode_elapsed_ms
            &&& rec.verified_at == earlier.verified_at
            &&& rec.status matches ArtifactStatus::CarriedForward { from_manifest_id }
                && from_manifest_id == id
            &&& final(run).carried_forward_count == old(run).carried_forward_count + 1
            &&& final(run).success_count == old(run).success_count
            &&& final(run).failure_count == old(run).failure_count
            &&& final(run).total == old(run).total
        }),
{
    let before = old(run).artifacts@;
    let rec = final(run).artifacts@.last();
    assert(final(run).artifacts@ =~= before.push(rec));
    lemma_count_push(before, rec, |s: ArtifactStatus| s is Success);
    lemma_count_push(before, rec, |s: ArtifactStatus| s is Failed);
    lemma_count_push(before, rec, |s: ArtifactStatus| s is CarriedForward);
}

/// For each node the last of its records that is good and still valid is carried
/// forward, and none where there is no such record.
pub proof fn law_the_last_valid_record_is_carried(
    nodes: &[ExecutionNode],
    artifacts: &[ArtifactRecord],
    seen: &[Observation],
    r: Vec<Option<usize>>,
    i: int,
)
    requires
        call_ensures(resume_plan, (nodes, artifacts, seen), r),
        seen@.len() == artifacts@.len(),
        0 <= i < nodes@.len(),
    ensures
        r@.len() == nodes@.len(),
        r@[i] matches Some(j) ==> {
            &&& j < artifacts@.len()
            &&& artifacts@[j as int].node_id == nodes@[i].id
            &&& artifacts@[j as int].status is Success || artifacts@[j as int].status
                is CarriedForward
            &&& still_valid(artifacts@[j as int], seen@[j as int])
            &&& forall|k: int|
                j < k < artifacts@.len() ==> (#[trigger] artifacts@[k]).node_id != nodes@[i].id
                    || artifacts@[k].status is Failed || artifacts@[k].status is Skipped
                    || !still_valid(artifacts@[k], seen@[k])
        },
        r@[i] is None ==> forall|k: int|
            0 <= k < artifacts@.len() ==> (#[trigger] artifacts@[k]).node_id != nodes@[i].id
                || artifacts@[k].status is Failed || artifacts@[k].status is Skipped
                || !still_valid(artifacts@[k], seen@[k]),
{
    assert(match r@[i] {
        Some(j) => carry_source(artifacts@, seen@, nodes@[i].id) == Some(j as int),
        None => carry_source(artifacts@, seen@, nodes@[i].id) is None,
    });
    lemma_last_source(artifacts@, seen@, nodes@[i].id);
}

proof fn lemma_last_source(artifacts: Seq<ArtifactRecord>, seen: Seq<Observation>, id: u128)
    ensures
        ({
            let r = carry_source(artifacts, seen, id);
            let from: int = if r is Some {
                r->0
            } else {
                -1
            };
            &&& -1 <= from < artifacts.len()
            &&& r is Some ==> artifacts[from].node_id == id && artifacts[from].status.good()
                && still_valid(artifacts[from], seen[from]) && from >= 0
            &&& forall|k: int|
                from < k < artifacts.len() ==> (#[trigger] artifacts[k]).node_id != id
                    || !artifacts[k].status.good() || !still_valid(artifacts[k], seen[k])
        }),
    decreases artifacts.len(),
{
    if artifacts.len() > 0 {
        let front = artifacts.drop_last();
        lemma_last_source(front, seen, id);
        assert forall|k: int| 0 <= k < front.len() implies front[k] == #[trigger] artifacts[k] by {}
    }
}

/// The manifest of a run is the run: its records, its counts, its graph and its
/// time, and the summary of the encodes tells the same counts.
pub proof fn law_manifests_are_of_their_run(
    run: Run,
    graph: ExecutionGraph,
    ms: u64,
    from: u128,
    fresh: TranscodeManifest,
    resumed: TranscodeManifest,
    told: Event,
)
    requires
        call_ensures(Run::into_manifest, (run, graph, ms), fresh),
        call_ensures(Run::into_resumed_manifest, (run, graph, ms, from), resumed),
        call_ensures(Run::summary, (&run,), told),
    ensures
        fresh.graph == graph && resumed.graph == graph,
        fresh.artifacts == run.artifacts && resumed.artifacts == run.artifacts,
        fresh.total_elapsed_ms == ms && resumed.total_elapsed_ms == ms,
        fresh.success_count == run.success_count && resumed.success_count == run.success_count,
        fresh.failure_count == run.failure_count && resumed.failure_count == run.failure_count,
        fresh.carried_forward_count == 0,
        resumed.carried_forward_count == run.carried_forward_count,
        fresh.resumed_from is None && resumed.resumed_from == Some(from),
        told matches Event::PhaseComplete { phase, total, jobs, skipped, success, failed } && {
            &&& phase == Phase::Encode
            &&& total == Some(run.total)
            &&& success == Some(run.success_count)
            &&& failed == Some(run.failure_count)
            &&& jobs is None && skipped is None
        },
{
}

/// The counts of records are those of a filter by their status.
pub proof fn law_counts_are_by_status(v: Seq<ArtifactRecord>)
    ensures
        successes(v) == v.filter(|x: ArtifactRecord| x.status is Success).len(),
        failures(v) == v.filter(|x: ArtifactRecord| x.status is Failed).len(),
        carried(v) == v.filter(|x: ArtifactRecord| x.status is CarriedForward).len(),
    decreases v.len(),
{
    reveal(Seq::filter);
    if v.len() > 0 {
        law_counts_are_by_status(v.drop_last());
    }
}

/// What an encode made is recorded so that it is still valid where the same is
/// found again: a run that resumes need not encode it anew.
pub proof fn law_fresh_records_are_still_valid(
    run: &mut Run,
    graph: &ExecutionGraph,
    made: ArtifactInfo,
    ms: u64,
    stop: bool,
    r: (Event, Option<AdapterError>),
    path: &str,
    extension: Option<String>,
    size: u64,
    duration: Option<u64>,
    info: MediaInfo,
    seen: Observation,
    valid: bool,
)
    requires
        old(run).wf(*graph),
        call_ensures(
            probe_output,
            (path, extension, size, duration, Some(&info)),
            Ok::<ArtifactInfo, AdapterError>(made),
        ),
        call_ensures(
            Run::record,
            (run, graph, Ok::<ArtifactInfo, AdapterError>(made), ms, stop),
            r,
        ),
        call_ensures(artifact_still_valid, (&final(run).artifacts@.last(), &seen), valid),
        seen.size_bytes == Some(size),
        seen.probed == Ok::<MediaInfo, String>(info),
    ensures
        valid,
{
}

/// A run is done exactly where it has a record of every node of its graph.
pub proof fn law_runs_are_done_with_their_last_node(run: Run, graph: ExecutionGraph, r: bool)
    requires
        run.wf(graph),
        call_ensures(Run::is_done, (&run, &graph), r),
    ensures
        r <==> run.artifacts@.len() == graph.nodes@.len(),
        r ==> forall|i: int|
            0 <= i < graph.nodes@.len() ==> (#[trigger] run.artifacts@[i]).node_id
                == graph.nodes@[i].id,
{
}

} // verus!
