//! The phases of a transcode, as a state machine: probe, plan, resolve, encode,
//! complete. It says which events go out, and when there is nothing left to do.

use crate::manifest::TranscodeManifest;
use crate::paths::{file_name_of, MediaPath, Part, PartText};
use crate::progress::{Event, Phase};
use crate::text::{decimal, decimal_text};
use vstd::prelude::*;
use vstd::string::*;

verus! {

/// Where a transcode is.
#[derive(Debug, Clone, Copy, PartialEq, Eq, Structural)]
pub enum FlowStage {
    Probing,
    Resolving,
    Encoding,
    Ended,
}

/// A transcode under way.
#[derive(Debug)]
pub struct Flow {
    pub stage: FlowStage,
    /// How many inputs there are.
    pub inputs: usize,
    /// How many of them were probed.
    pub probed: usize,
    pub no_skip: bool,
}

/// What follows a plan.
#[derive(Debug)]
pub enum AfterPlan {
    /// Resolve the adapters, and encode.
    Go,
    /// Every input is what was asked for.
    NothingToDo,
    /// No job was planned though every input should have had one.
    Refused(String),
}

/// What is said where nothing may be skipped and yet nothing was planned.
pub open spec fn empty_plan_text(inputs: usize) -> Seq<char> {
    "--no-skip was set but no encode jobs were planned for "@ + decimal(inputs as nat)
        + " input(s) — refusing to exit 0 with an empty output directory"@
}

/// Whether an event reports that an operation failed in a phase.
pub open spec fn is_failure(event: Event, phase: Phase, text: Seq<char>) -> bool {
    event matches Event::OperationFailed { phase: p, error } && p == Some(phase) && error@ == text
}

/// The end of probing, and the plan.
pub open spec fn plan_events(inputs: usize, jobs: usize, skipped: usize) -> Seq<Event> {
    seq![
        Event::PhaseComplete {
            phase: Phase::Probe,
            total: Some(inputs),
            jobs: None,
            skipped: None,
            success: None,
            failed: None,
        },
        Event::PhaseStart { phase: Phase::Plan, total: None, carrying_forward: None },
        Event::PhaseComplete {
            phase: Phase::Plan,
            total: None,
            jobs: Some(jobs),
            skipped: Some(skipped),
            success: None,
            failed: None,
        },
    ]
}

/// Whether an event is the summary of a run that had nothing to do.
pub open spec fn is_empty_summary(event: Event) -> bool {
    event matches Event::Complete {
        success,
        failed,
        total_elapsed_ms,
        manifest,
        carried_forward,
        re_encoded,
    } && success == 0 && failed == 0 && total_elapsed_ms == 0 && manifest@.len() == 0
        && carried_forward is None && re_encoded is None
}

impl Flow {
    /// Begins with the inputs of a batch.
    pub fn start(inputs: usize, no_skip: bool) -> (r: (Flow, Event))
        ensures
            r.0.stage == FlowStage::Probing,
            r.0.inputs == inputs,
            r.0.probed == 0,
            r.0.no_skip == no_skip,
            r.1 == (Event::PhaseStart {
                phase: Phase::Probe,
                total: Some(inputs),
                carrying_forward: None,
            }),
    {
        let flow = Flow { stage: FlowStage::Probing, inputs, probed: 0, no_skip };
        let event = Event::PhaseStart {
            phase: Phase::Probe,
            total: Some(inputs),
            carrying_forward: None,
        };
        (flow, event)
    }

    /// An input was probed.
    pub fn probed_one(&mut self, file: &str, elapsed_ms: u64) -> (r: Event)
        requires
            old(self).stage == FlowStage::Probing,
            old(self).probed < old(self).inputs,
        ensures
            *final(self) == (Flow { probed: final(self).probed, ..*old(self) }),
            final(self).probed == old(self).probed + 1,
            r matches Event::FileComplete {
                phase,
                current,
                total,
                file: f,
                output,
                elapsed_ms: ms,
                success,
                error,
            } && {
                &&& phase == Phase::Probe
                &&& current == final(self).probed
                &&& total == old(self).inputs
                &&& f@ == file@
                &&& output is None
                &&& ms == elapsed_ms
                &&& success
                &&& error is None
            },
    {
        self.probed = self.probed + 1;
        Event::FileComplete {
            phase: Phase::Probe,
            current: self.probed,
            total: self.inputs,
            file: file.to_owned(),
            output: None,
            elapsed_ms,
            success: true,
            error: None,
        }
    }

    /// All inputs were probed and planned. A plan without jobs ends the transcode:
    /// well, or with a failure where nothing might be skipped.
    pub fn planned(&mut self, jobs: usize, skipped: usize) -> (r: (Vec<Event>, AfterPlan))
        requires
            old(self).stage == FlowStage::Probing,
        ensures
            final(self).stage == (if jobs > 0 {
                FlowStage::Resolving
            } else {
                FlowStage::Ended
            }),
            *final(self) == (Flow { stage: final(self).stage, ..*old(self) }),
            r.0@.len() == 4,
            r.0@.take(3) == plan_events(old(self).inputs, jobs, skipped),
            if jobs > 0 {
                &&& r.1 is Go
                &&& r.0@[3] == (Event::PhaseStart {
                    phase: Phase::Resolve,
                    total: None,
                    carrying_forward: None,
                })
            } else if old(self).no_skip {
                &&& r.1 matches AfterPlan::Refused(text)
                &&& text@ == empty_plan_text(old(self).inputs)
                &&& is_failure(r.0@[3], Phase::Plan, empty_plan_text(old(self).inputs))
            } else {
                &&& r.1 is NothingToDo
                &&& is_empty_summary(r.0@[3])
            },
    {
        let mut events: Vec<Event> = Vec::new();
        events.push(
            Event::PhaseComplete {
                phase: Phase::Probe,
                total: Some(self.inputs),
                jobs: None,
                skipped: None,
                success: None,
                failed: None,
            },
        );
        events.push(
            Event::PhaseStart { phase: Phase::Plan, total: None, carrying_forward: None },
        );
        events.push(
            Event::PhaseComplete {
                phase: Phase::Plan,
                total: None,
                jobs: Some(jobs),
                skipped: Some(skipped),
                success: None,
                failed: None,
            },
        );
        let ghost three = events@;
        let next = if jobs > 0 {
            self.stage = FlowStage::Resolving;
            events.push(
                Event::PhaseStart { phase: Phase::Resolve, total: None, carrying_forward: None },
            );
            AfterPlan::Go
        } else if self.no_skip {
            self.stage = FlowStage::Ended;
            let mut text = "--no-skip was set but no encode jobs were planned for ".to_owned();
            text.append(decimal_text(self.inputs as u64).as_str());
            text.append(" input(s) — refusing to exit 0 with an empty output directory");
            events.push(
                Event::OperationFailed { phase: Some(Phase::Plan), error: text.clone() },
            );
            AfterPlan::Refused(text)
        } else {
            self.stage = FlowStage::Ended;
            let manifest = String::new();
            events.push(
                Event::Complete {
                    success: 0,
                    failed: 0,
                    total_elapsed_ms: 0,
                    manifest,
                    carried_forward: None,
                    re_encoded: None,
                },
            );
            AfterPlan::NothingToDo
        };
        assert(events@.take(3) =~= three);
        assert(three =~= plan_events(self.inputs, jobs, skipped));
        (events, next)
    }

    /// All inputs were probed and planned, and nothing is to be encoded: the plan
    /// is only written down.
    pub fn planned_only(&mut self, jobs: usize, skipped: usize) -> (r: Vec<Event>)
        requires
            old(self).stage == FlowStage::Probing,
        ensures
            *final(self) == (Flow { stage: FlowStage::Resolving, ..*old(self) }),
            r@ == seq![
                Event::PhaseComplete {
                    phase: Phase::Probe,
                    total: Some(old(self).inputs),
                    jobs: Some(jobs),
                    skipped: Some(skipped),
                    success: None,
                    failed: None,
                },
                Event::PhaseStart { phase: Phase::Resolve, total: None, carrying_forward: None },
            ],
    {
        self.stage = FlowStage::Resolving;
        let mut events: Vec<Event> = Vec::new();
        events.push(
            Event::PhaseComplete {
                phase: Phase::Probe,
                total: Some(self.inputs),
                jobs: Some(jobs),
                skipped: Some(skipped),
                success: None,
                failed: None,
            },
        );
        events.push(
            Event::PhaseStart { phase: Phase::Resolve, total: None, carrying_forward: None },
        );
        events
    }

    /// The adapters were resolved, or why they could not be.
    pub fn resolved(&mut self, problem: Option<String>) -> (r: Event)
        requires
            old(self).stage == FlowStage::Resolving,
        ensures
            *final(self) == (Flow { stage: final(self).stage, ..*old(self) }),
            match problem {
                Some(text) => final(self).stage == FlowStage::Ended && is_failure(
                    r,
                    Phase::Resolve,
                    text@,
                ),
                None => final(self).stage == FlowStage::Encoding && r == (Event::PhaseComplete {
                    phase: Phase::Resolve,
                    total: None,
                    jobs: None,
                    skipped: None,
                    success: None,
                    failed: None,
                }),
            },
    {
        match problem {
            Some(error) => {
                self.stage = FlowStage::Ended;
                Event::OperationFailed { phase: Some(Phase::Resolve), error }
            },
            None => {
                self.stage = FlowStage::Encoding;
                Event::PhaseComplete {
                    phase: Phase::Resolve,
                    total: None,
                    jobs: None,
                    skipped: None,
                    success: None,
                    failed: None,
                }
            },
        }
    }

    /// Everything was encoded.
    pub fn completed(&mut self, manifest: &TranscodeManifest, path: &str) -> (r: Event)
        requires
            old(self).stage == FlowStage::Encoding,
        ensures
            *final(self) == (Flow { stage: FlowStage::Ended, ..*old(self) }),
            is_summary(r, *manifest, path@, false),
    {
        self.stage = FlowStage::Ended;
        summary_event(manifest, path, false)
    }
}

/// Whether an event is the summary of a run. A run that resumed says what it
/// carried forward and what it encoded again.
pub open spec fn is_summary(
    event: Event,
    m: TranscodeManifest,
    path: Seq<char>,
    resumed: bool,
) -> bool {
    event matches Event::Complete {
        success,
        failed,
        total_elapsed_ms,
        manifest,
        carried_forward,
        re_encoded,
    } && {
        &&& success == m.success_count
        &&& failed == m.failure_count
        &&& total_elapsed_ms == m.total_elapsed_ms
        &&& manifest@ == path
        &&& carried_forward == (if resumed {
            Some(m.carried_forward_count)
        } else {
            None
        })
        &&& re_encoded == (if resumed {
            Some(m.success_count)
        } else {
            None
        })
    }
}

/// The summary of a run.
pub fn summary_event(m: &TranscodeManifest, path: &str, resumed: bool) -> (r: Event)
    ensures
        is_summary(r, *m, path@, resumed),
{
    Event::Complete {
        success: m.success_count,
        failed: m.failure_count,
        total_elapsed_ms: m.total_elapsed_ms,
        manifest: path.to_owned(),
        carried_forward: if resumed {
            Some(m.carried_forward_count)
        } else {
            None
        },
        re_encoded: if resumed {
            Some(m.success_count)
        } else {
            None
        },
    }
}

/// The exit code of a run or a verification, by the number of its failures.
pub fn exit_code(failures: usize) -> (r: i32)
    ensures
        r == (if failures > 0 {
            2int
        } else {
            0int
        }),
{
    if failures > 0 {
        2
    } else {
        0
    }
}

/// Where a resumed run writes its manifest, unless the caller says: in the
/// directory of the one it resumes from, as `manifest-resumed.json`.
pub open spec fn resumed_path(p: Seq<PartText>) -> Seq<PartText> {
    match file_name_of(p) {
        Some(_) => p.drop_last().push(PartText::Name("manifest-resumed.json"@)),
        None => p.push(PartText::Name("manifest-resumed.json"@)),
    }
}

pub fn resumed_manifest_path(manifest: &MediaPath) -> (r: MediaPath)
    ensures
        r@ == resumed_path(manifest@),
{
    let mut p = manifest.clone();
    let ghost before = p@;
    if p.file_name().is_some() {
        let _ = p.parts.pop();
        assert(p@ =~= before.drop_last());
    }
    let name = "manifest-resumed.json".to_owned();
    let ghost front = p@;
    p.parts.push(Part::Name(name));
    assert(p@ =~= front.push(PartText::Name(name@)));
    p
}

// ---- laws -----------------------------------------------------------------

/// A transcode begins by probing all its inputs, and each probed input is told by
/// its number, its name and its time.
pub proof fn law_inputs_are_probed_one_by_one(
    inputs: usize,
    no_skip: bool,
    begun: (Flow, Event),
    flow: &mut Flow,
    file: &str,
    ms: u64,
    r: Event,
)
    requires
        call_ensures(Flow::start, (inputs, no_skip), begun),
        call_ensures(Flow::probed_one, (flow, file, ms), r),
    ensures
        begun.0.stage == FlowStage::Probing && begun.0.inputs == inputs && begun.0.probed == 0
            && begun.0.no_skip == no_skip,
        begun.1 matches Event::PhaseStart { phase, total, carrying_forward } && phase
            == Phase::Probe && total == Some(inputs) && carrying_forward is None,
        final(flow).probed == old(flow).probed + 1,
        final(flow).stage == old(flow).stage,
        final(flow).inputs == old(flow).inputs,
        final(flow).no_skip == old(flow).no_skip,
        r matches Event::FileComplete {
            phase,
            current,
            total,
            file: name,
            output,
            elapsed_ms,
            success,
            error,
        } && phase == Phase::Probe && current == old(flow).probed + 1 && total == old(flow).inputs
            && name@ == file@ && output is None && elapsed_ms == ms && success && error is None,
{
}

/// After the plan there is something to resolve exactly where there are jobs. A
/// plan without jobs ends the transcode, as a failure exactly where nothing might
/// be skipped. The jobs and the skipped inputs are told, each under its name.
pub proof fn law_empty_plans_end_the_transcode(
    flow: &mut Flow,
    jobs: usize,
    skipped: usize,
    r: (Vec<Event>, AfterPlan),
)
    requires
        call_ensures(Flow::planned, (flow, jobs, skipped), r),
    ensures
        r.1 is Go <==> jobs > 0,
        r.1 is Refused <==> jobs == 0 && old(flow).no_skip,
        r.1 is NothingToDo <==> jobs == 0 && !old(flow).no_skip,
        final(flow).stage == FlowStage::Resolving <==> jobs > 0,
        final(flow).stage == FlowStage::Ended <==> jobs == 0,
        final(flow).inputs == old(flow).inputs && final(flow).no_skip == old(flow).no_skip,
        r.0@.len() == 4,
        r.0@[0] matches Event::PhaseComplete { phase, total, .. } && phase == Phase::Probe && total
            == Some(old(flow).inputs),
        r.0@[1] matches Event::PhaseStart { phase, .. } && phase == Phase::Plan,
        r.0@[2] matches Event::PhaseComplete { phase, jobs: j, skipped: s, .. } && phase
            == Phase::Plan && j == Some(jobs) && s == Some(skipped),
        jobs > 0 ==> (r.0@[3] matches Event::PhaseStart { phase, .. } && phase == Phase::Resolve),
        jobs == 0 && !old(flow).no_skip ==> (r.0@[3] matches Event::Complete {
            success,
            failed,
            total_elapsed_ms,
            manifest,
            carried_forward,
            re_encoded,
        } && success == 0 && failed == 0 && total_elapsed_ms == 0 && manifest@.len() == 0
            && carried_forward is None && re_encoded is None),
        jobs == 0 && old(flow).no_skip ==> (r.0@[3] matches Event::OperationFailed { phase, error }
            && phase == Some(Phase::Plan) && error@
            == "--no-skip was set but no encode jobs were planned for "@ + decimal(
            old(flow).inputs as nat,
        ) + " input(s) — refusing to exit 0 with an empty output directory"@
            && r.1->Refused_0@ == error@),
{
    let three = plan_events(old(flow).inputs, jobs, skipped);
    assert(r.0@.take(3)[0] == r.0@[0] && r.0@.take(3)[1] == r.0@[1] && r.0@.take(3)[2] == r.0@[2]);
    assert(three[0] == r.0@[0] && three[1] == r.0@[1] && three[2] == r.0@[2]);
}

/// A plan that is only written down is told with its jobs and skipped inputs, and
/// goes on to its adapters.
pub proof fn law_written_plans_are_told(
    flow: &mut Flow,
    jobs: usize,
    skipped: usize,
    r: Vec<Event>,
)
    requires
        call_ensures(Flow::planned_only, (flow, jobs, skipped), r),
    ensures
        final(flow).stage == FlowStage::Resolving,
        final(flow).inputs == old(flow).inputs,
        r@.len() == 2,
        r@[0] matches Event::PhaseComplete { phase, total, jobs: j, skipped: s, .. } && phase
            == Phase::Probe && total == Some(old(flow).inputs) && j == Some(jobs) && s == Some(
            skipped,
        ),
        r@[1] matches Event::PhaseStart { phase, .. } && phase == Phase::Resolve,
{
}

/// A problem with the adapters ends the transcode with that problem; without one
/// the encodes follow.
pub proof fn law_problems_end_the_transcode(flow: &mut Flow, problem: Option<String>, r: Event)
    requires
        call_ensures(Flow::resolved, (flow, problem), r),
    ensures
        final(flow).stage == FlowStage::Ended <==> problem is Some,
        final(flow).stage == FlowStage::Encoding <==> problem is None,
        problem matches Some(text) ==> (r matches Event::OperationFailed { phase, error } && phase
            == Some(Phase::Resolve) && error@ == text@),
        problem is None ==> (r matches Event::PhaseComplete { phase, .. } && phase
            == Phase::Resolve),
{
}

/// The summary tells the successes, the failures, the time and the path of the
/// manifest; that of a run that resumed tells as well what was carried forward and
/// what was encoded again.
pub proof fn law_summaries_tell_the_counts(
    m: TranscodeManifest,
    path: &str,
    flow: &mut Flow,
    whole: Event,
    resumed: Event,
)
    requires
        call_ensures(Flow::completed, (flow, &m, path), whole),
        call_ensures(summary_event, (&m, path, true), resumed),
    ensures
        final(flow).stage == FlowStage::Ended,
        whole matches Event::Complete {
            success,
            failed,
            total_elapsed_ms,
            manifest,
            carried_forward,
            re_encoded,
        } && success == m.success_count && failed == m.failure_count && total_elapsed_ms
            == m.total_elapsed_ms && manifest@ == path@ && carried_forward is None
            && re_encoded is None,
        resumed matches Event::Complete {
            success,
            failed,
            total_elapsed_ms,
            manifest,
            carried_forward,
            re_encoded,
        } && success == m.success_count && failed == m.failure_count && total_elapsed_ms
            == m.total_elapsed_ms && manifest@ == path@ && carried_forward == Some(
            m.carried_forward_count,
        ) && re_encoded == Some(m.success_count),
{
}

/// A run exits well exactly where nothing failed.
pub proof fn law_failures_show_in_the_exit_code(failures: usize, r: i32)
    requires
        call_ensures(exit_code, (failures,), r),
    ensures
        r == 0 <==> failures == 0,
        failures > 0 ==> r == 2,
{
}

/// A run that resumed writes beside the manifest it resumed from, under a name of
/// its own.
pub proof fn law_resumed_manifests_stand_beside(p: MediaPath, r: MediaPath, up: Option<MediaPath>)
    requires
        call_ensures(resumed_manifest_path, (&p,), r),
        call_ensures(MediaPath::parent, (&r,), up),
        p@.len() > 0,
    ensures
        r@.last() == PartText::Name("manifest-resumed.json"@),
        p@.last() is Name ==> (up matches Some(d) && d@ == p@.drop_last()),
        !(p@.last() is Name) ==> (up matches Some(d) && d@ == p@),
{
    assert(r@.drop_last() =~= (if p@.last() is Name {
        p@.drop_last()
    } else {
        p@
    }));
}

} // verus!
