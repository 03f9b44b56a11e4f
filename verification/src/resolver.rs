//! The resolver: which adapters there are, and whether they can run a plan.
//!
//! A plan is validated as a whole before anything is encoded.

use crate::adapters::atrac::AtracAdapter;
use crate::adapters::ffmpeg::{lists_libxvid, FfmpegAdapter};
use crate::adapters::wmv9::Wmv9Adapter;
use crate::adapters::{
    atrac, can_be_run, codec_refused, codec_refused_text, ffmpeg, wmv9, EncoderAdapter, Refusal,
    Scratch, StepText,
};
use crate::binaries::{find_ffmpeg, find_tool, find_wmv9_helper, located, HostTools};
use crate::error::BbtError;
use crate::graph::{EncodeParams, ExecutionNode, MediaType};
use crate::planner::PlannedJob;
use crate::text::{join, join_texts, lines, opt_is, opt_text, push_text, same_text, texts};
use vstd::prelude::*;
use vstd::string::*;

verus! {

/// The adapters that this machine has.
#[derive(Debug)]
pub struct ResolvedCapabilities {
    pub ffmpeg: Option<FfmpegAdapter>,
    pub atrac: Option<AtracAdapter>,
    pub wmv9: Option<Wmv9Adapter>,
}

/// Whether a codec is one of the ATRAC family.
pub open spec fn is_atrac(codec: Seq<char>) -> bool {
    ||| codec == "atrac1"@
    ||| codec == "atrac3"@
    ||| codec == "atrac3p"@
}

fn atrac_codec(codec: &str) -> (r: bool)
    ensures
        r == is_atrac(codec@),
{
    same_text(codec, "atrac1") || same_text(codec, "atrac3") || same_text(codec, "atrac3p")
}

/// Whether a job is for WMV9 video.
pub open spec fn wants_wmv9(p: EncodeParams) -> bool {
    p.media_type == MediaType::Video && opt_text(p.video_codec) == Some("wmv9"@)
}

pub fn is_wmv9_job(params: &EncodeParams) -> (r: bool)
    ensures
        r == wants_wmv9(*params),
{
    params.media_type == MediaType::Video && opt_is(&params.video_codec, "wmv9")
}

/// The adapter that a set of parameters is for: by the video codec for a video,
/// by the audio codec otherwise.
pub open spec fn adapter_wanted(p: EncodeParams) -> Seq<char> {
    if wants_wmv9(p) {
        "wmv9"@
    } else if p.media_type == MediaType::Video {
        "ffmpeg"@
    } else if is_atrac(p.audio_codec@) {
        "atrac"@
    } else {
        "ffmpeg"@
    }
}

/// What is said where FFmpeg is missing.
pub open spec fn ffmpeg_missing() -> Seq<char> {
    "FFmpeg is required but not found in PATH. Install from https://ffmpeg.org or via your package manager."@
}

/// What is said where there is no ATRAC encoder.
pub open spec fn atrac_missing() -> Seq<char> {
    "ATRAC encoding requires atracdenc (open source) or atracenc. Install atracdenc from https://github.com/dcherednik/atracdenc and ensure it is in your PATH."@
}

/// What is said where there is no WMV9 helper.
pub open spec fn wmv9_missing() -> Seq<char> {
    "WMV9 video encoding requires the Windows build of bbt (it uses the OS Media Foundation encoder via the bundled bbt-wmv9 helper). There is no cross-platform WMV9 encoder — FFmpeg can only encode WMV7/WMV8, which these devices reject. Run this on Windows, or set BBT_WMV9_PATH to a bbt-wmv9.exe build."@
}

impl ResolvedCapabilities {
    /// Whether there is an adapter of a name.
    pub open spec fn has(&self, name: Seq<char>) -> bool {
        ||| name == "ffmpeg"@ && self.ffmpeg is Some
        ||| name == "atrac"@ && self.atrac is Some
        ||| name == "wmv9"@ && self.wmv9 is Some
    }

    /// The adapter of a job, if there is one.
    pub open spec fn adapter_of(&self, p: EncodeParams) -> Option<Seq<char>> {
        if self.has(adapter_wanted(p)) {
            Some(adapter_wanted(p))
        } else {
            None
        }
    }

    /// The adapters of a machine. `encoders` is what its `ffmpeg` lists, and
    /// `helper_present` says whether the WMV9 helper is still there.
    pub fn detect(host: &HostTools, encoders: &str, helper_present: bool) -> (r:
        ResolvedCapabilities)
        ensures
            match r.ffmpeg {
                Some(a) => {
                    &&& Some(a.binary@) == located(host.ffmpeg)
                    &&& a.has_libxvid == exists|i: int|
                        0 <= i < lines(encoders@).len() && lists_libxvid(
                            #[trigger] lines(encoders@)[i],
                        )
                },
                None => located(host.ffmpeg) is None,
            },
            match r.atrac {
                Some(a) => {
                    &&& opt_text(a.atracdenc) == located(host.atracdenc)
                    &&& opt_text(a.atracenc) == located(host.atracenc)
                    &&& opt_text(a.ffmpeg) == located(host.ffmpeg)
                    &&& a.usable(true)
                },
                None => located(host.ffmpeg) is None || (located(host.atracdenc) is None
                    && located(host.atracenc) is None),
            },
            match r.wmv9 {
                Some(a) => {
                    &&& Some(a.helper@) == located(host.wmv9)
                    &&& opt_text(a.ffmpeg) == located(host.ffmpeg)
                    &&& a.usable(helper_present)
                },
                None => located(host.wmv9) is None || !helper_present || located(host.ffmpeg)
                    is None,
            },
    {
        let ffmpeg = FfmpegAdapter::detect(host, encoders);
        let found = AtracAdapter::detect(host);
        let atrac = if found.is_available(true) {
            Some(found)
        } else {
            None
        };
        let wmv9 = match Wmv9Adapter::detect(host) {
            Some(a) => if a.is_available(helper_present) {
                Some(a)
            } else {
                None
            },
            None => None,
        };
        ResolvedCapabilities { ffmpeg, atrac, wmv9 }
    }

    pub fn has_adapter(&self, name: &str) -> (r: bool)
        ensures
            r == self.has(name@),
    {
        (same_text(name, "ffmpeg") && self.ffmpeg.is_some()) || (same_text(name, "atrac")
            && self.atrac.is_some()) || (same_text(name, "wmv9") && self.wmv9.is_some())
    }

    /// The adapter for an audio codec: ATRAC codecs have their own, all others
    /// go to FFmpeg.
    pub fn adapter_for_codec(&self, codec: &str) -> (r: Option<&'static str>)
        ensures
            match r {
                Some(name) => self.has(name@) && name@ == (if is_atrac(codec@) {
                    "atrac"@
                } else {
                    "ffmpeg"@
                }),
                None => !self.has(
                    if is_atrac(codec@) {
                        "atrac"@
                    } else {
                        "ffmpeg"@
                    },
                ),
            },
    {
        let name: &'static str = if atrac_codec(codec) {
            "atrac"
        } else {
            "ffmpeg"
        };
        if self.has_adapter(name) {
            Some(name)
        } else {
            None
        }
    }

    /// The adapter for a job.
    pub fn adapter_for_params(&self, params: &EncodeParams) -> (r: Option<&'static str>)
        ensures
            match r {
                Some(name) => self.adapter_of(*params) == Some(name@),
                None => self.adapter_of(*params) is None,
            },
    {
        if is_wmv9_job(params) {
            return if self.has_adapter("wmv9") {
                Some("wmv9")
            } else {
                None
            };
        }
        if params.media_type == MediaType::Video {
            return if self.has_adapter("ffmpeg") {
                Some("ffmpeg")
            } else {
                None
            };
        }
        self.adapter_for_codec(params.audio_codec.as_str())
    }

    /// What keeps a set of parameters from being encoded: that its adapter is
    /// missing, or what that adapter lacks. That the WMV9 adapter is missing is
    /// said once for a whole batch.
    pub open spec fn obstacle_to(&self, p: EncodeParams) -> Option<Seq<char>> {
        if wants_wmv9(p) {
            match self.wmv9 {
                Some(a) => a.obstacle(p),
                None => None,
            }
        } else if p.media_type == MediaType::Audio && is_atrac(p.audio_codec@) {
            match self.atrac {
                Some(a) => a.obstacle(p),
                None => Some(codec_refused(p.audio_codec@)),
            }
        } else {
            match self.ffmpeg {
                Some(a) => a.obstacle(p),
                None => Some(codec_refused(p.audio_codec@)),
            }
        }
    }

    fn find_obstacle_to(&self, params: &EncodeParams) -> (r: Option<String>)
        ensures
            opt_text(r) == self.obstacle_to(*params),
    {
        if is_wmv9_job(params) {
            return match &self.wmv9 {
                Some(a) => a.find_obstacle(params),
                None => None,
            };
        }
        if params.media_type == MediaType::Audio && atrac_codec(params.audio_codec.as_str()) {
            return match &self.atrac {
                Some(a) => a.find_obstacle(params),
                None => Some(codec_refused_text(params.audio_codec.as_str())),
            };
        }
        match &self.ffmpeg {
            Some(a) => a.find_obstacle(params),
            None => Some(codec_refused_text(params.audio_codec.as_str())),
        }
    }

    /// The steps of a node by the adapter that its parameters are for, if that
    /// adapter is there.
    pub open spec fn plan_of(&self, node: ExecutionNode, scratch: Scratch) -> Option<
        Result<Seq<StepText>, Refusal>,
    > {
        if wants_wmv9(node.params) {
            match self.wmv9 {
                Some(a) => Some(a.planned(node, scratch)),
                None => None,
            }
        } else if node.params.media_type == MediaType::Audio && is_atrac(node.params.audio_codec@) {
            match self.atrac {
                Some(a) => Some(a.planned(node, scratch)),
                None => None,
            }
        } else {
            match self.ffmpeg {
                Some(a) => Some(a.planned(node, scratch)),
                None => None,
            }
        }
    }

    /// What is said of one job that cannot be run.
    pub open spec fn job_error(&self, job: PlannedJob) -> Seq<Seq<char>> {
        match self.obstacle_to(job.params) {
            Some(what) => seq![what + " (file: "@ + job.source_path@ + ")"@],
            None => Seq::empty(),
        }
    }

    /// What is said of each job, in order.
    pub open spec fn job_errors(&self, jobs: Seq<PlannedJob>) -> Seq<Seq<char>>
        decreases jobs.len(),
    {
        if jobs.len() == 0 {
            Seq::empty()
        } else {
            self.job_errors(jobs.drop_last()) + self.job_error(jobs.last())
        }
    }

    /// Everything that stands against a plan.
    pub open spec fn plan_errors(&self, jobs: Seq<PlannedJob>) -> Seq<Seq<char>> {
        let needs_ffmpeg = exists|i: int|
            0 <= i < jobs.len() && !is_atrac((#[trigger] jobs[i]).params.audio_codec@);
        let needs_atrac = exists|i: int|
            0 <= i < jobs.len() && is_atrac((#[trigger] jobs[i]).params.audio_codec@);
        let needs_wmv9 = exists|i: int|
            0 <= i < jobs.len() && wants_wmv9((#[trigger] jobs[i]).params);
        (if needs_ffmpeg && !self.has("ffmpeg"@) {
            seq![ffmpeg_missing()]
        } else {
            Seq::empty()
        }) + (if needs_atrac && !self.has("atrac"@) {
            seq![atrac_missing()]
        } else {
            Seq::empty()
        }) + (if needs_wmv9 && !self.has("wmv9"@) {
            seq![wmv9_missing()]
        } else {
            Seq::empty()
        }) + self.job_errors(jobs)
    }

    /// Whether every job of a plan can be run; otherwise everything that stands
    /// against it, not only the first.
    pub fn validate_plan(&self, jobs: &[PlannedJob]) -> (r: Result<(), BbtError>)
        ensures
            r is Ok <==> self.plan_errors(jobs@).len() == 0,
            r matches Err(e) ==> (e matches BbtError::CapabilityError(text) && text@ == join(
                self.plan_errors(jobs@),
                "\n"@,
            )),
    {
        let mut needs_ffmpeg = false;
        let mut needs_atrac = false;
        let mut needs_wmv9 = false;
        let mut each: Vec<String> = Vec::new();
        let mut i: usize = 0;
        assert(texts(each@) =~= Seq::<Seq<char>>::empty());
        while i < jobs.len()
            invariant
                i <= jobs@.len(),
                needs_ffmpeg == exists|j: int|
                    0 <= j < i && !is_atrac((#[trigger] jobs@[j]).params.audio_codec@),
                needs_atrac == exists|j: int|
                    0 <= j < i && is_atrac((#[trigger] jobs@[j]).params.audio_codec@),
                needs_wmv9 == exists|j: int|
                    0 <= j < i && wants_wmv9((#[trigger] jobs@[j]).params),
                texts(each@) == self.job_errors(jobs@.take(i as int)),
            decreases jobs@.len() - i,
        {
            let job = &jobs[i];
            proof {
                assert(jobs@.take(i + 1).drop_last() =~= jobs@.take(i as int));
                assert(jobs@.take(i + 1).last() == jobs@[i as int]);
            }
            if atrac_codec(job.params.audio_codec.as_str()) {
                needs_atrac = true;
                assert(is_atrac(jobs@[i as int].params.audio_codec@));
            } else {
                needs_ffmpeg = true;
                assert(!is_atrac(jobs@[i as int].params.audio_codec@));
            }
            if is_wmv9_job(&job.params) {
                needs_wmv9 = true;
                assert(wants_wmv9(jobs@[i as int].params));
            }
            if let Some(what) = self.find_obstacle_to(&job.params) {
                let ghost before = texts(each@);
                let mut m = what;
                m.append(" (file: ");
                m.append(job.source_path.as_str());
                m.append(")");
                push_text(&mut each, m.as_str());
                assert(texts(each@) =~= before + self.job_error(*job));
            } else {
                assert(texts(each@) =~= texts(each@) + self.job_error(*job));
            }
            i = i + 1;
        }
        assert(jobs@.take(jobs@.len() as int) =~= jobs@);

        let mut errors: Vec<String> = Vec::new();
        if needs_ffmpeg && !self.has_adapter("ffmpeg") {
            push_text(
                &mut errors,
                "FFmpeg is required but not found in PATH. Install from https://ffmpeg.org or via your package manager.",
            );
        }
        if needs_atrac && !self.has_adapter("atrac") {
            push_text(
                &mut errors,
                "ATRAC encoding requires atracdenc (open source) or atracenc. Install atracdenc from https://github.com/dcherednik/atracdenc and ensure it is in your PATH.",
            );
        }
        if needs_wmv9 && !self.has_adapter("wmv9") {
            push_text(
                &mut errors,
                "WMV9 video encoding requires the Windows build of bbt (it uses the OS Media Foundation encoder via the bundled bbt-wmv9 helper). There is no cross-platform WMV9 encoder — FFmpeg can only encode WMV7/WMV8, which these devices reject. Run this on Windows, or set BBT_WMV9_PATH to a bbt-wmv9.exe build.",
            );
        }
        let ghost front = texts(errors@);
        errors.append(&mut each);
        assert(texts(errors@) =~= front + self.job_errors(jobs@));
        assert(texts(errors@) =~= self.plan_errors(jobs@));
        if errors.len() == 0 {
            Ok(())
        } else {
            Err(BbtError::CapabilityError(join_texts(errors.as_slice(), "\n")))
        }
    }

    /// Gives each job its adapter, where there is one. Nothing else changes.
    pub fn assign_adapters(&self, jobs: &mut Vec<PlannedJob>)
        ensures
            final(jobs)@.len() == old(jobs)@.len(),
            forall|i: int|
                0 <= i < old(jobs)@.len() ==> {
                    &&& opt_text((#[trigger] final(jobs)@[i]).assigned_adapter) == self.adapter_of(
                        old(jobs)@[i].params,
                    )
                    &&& final(jobs)@[i] == (PlannedJob {
                        assigned_adapter: final(jobs)@[i].assigned_adapter,
                        ..old(jobs)@[i]
                    })
                },
    {
        let mut i: usize = 0;
        while i < jobs.len()
            invariant
                i <= jobs@.len(),
                jobs@.len() == old(jobs)@.len(),
                forall|j: int| i <= j < jobs@.len() ==> #[trigger] jobs@[j] == old(jobs)@[j],
                forall|j: int|
                    0 <= j < i ==> {
                        &&& opt_text((#[trigger] jobs@[j]).assigned_adapter) == self.adapter_of(
                            old(jobs)@[j].params,
                        )
                        &&& jobs@[j] == (PlannedJob {
                            assigned_adapter: jobs@[j].assigned_adapter,
                            ..old(jobs)@[j]
                        })
                    },
            decreases jobs@.len() - i,
        {
            let adapter = match self.adapter_for_params(&jobs[i].params) {
                Some(name) => Some(name.to_owned()),
                None => None,
            };
            jobs[i].assigned_adapter = adapter;
            i = i + 1;
        }
    }
}

proof fn lemma_no_job_errors(caps: ResolvedCapabilities, jobs: Seq<PlannedJob>, i: int)
    requires
        caps.job_errors(jobs).len() == 0,
        0 <= i < jobs.len(),
    ensures
        caps.job_error(jobs[i]).len() == 0,
    decreases jobs.len(),
{
    if i < jobs.len() - 1 {
        lemma_no_job_errors(caps, jobs.drop_last(), i);
    }
}

/// A plan that was validated can be run to its end: every one of its jobs has
/// an adapter.
pub proof fn law_validated_jobs_have_adapters(
    caps: ResolvedCapabilities,
    jobs: Seq<PlannedJob>,
    i: int,
)
    requires
        caps.plan_errors(jobs).len() == 0,
        0 <= i < jobs.len(),
    ensures
        caps.adapter_of(jobs[i].params) is Some,
{
    assert(caps.job_errors(jobs).len() == 0);
    lemma_no_job_errors(caps, jobs, i);
    if wants_wmv9(jobs[i].params) {
        assert(caps.has("wmv9"@));
    }
}

/// A plan that was validated can be executed fully: for every one of its jobs,
/// the adapter that the job is for plans the encode of its node, with steps that
/// can all be run. Xvid video is encoded only where `ffmpeg` has its encoder.
pub proof fn law_validated_plans_can_be_executed(
    caps: ResolvedCapabilities,
    jobs: Seq<PlannedJob>,
    i: int,
    node: ExecutionNode,
    scratch: Scratch,
)
    requires
        caps.plan_errors(jobs).len() == 0,
        0 <= i < jobs.len(),
        jobs[i].params.agrees(node.params),
    ensures
        caps.adapter_of(node.params) is Some,
        caps.plan_of(node, scratch) matches Some(plan) && can_be_run(plan),
        node.params.media_type == MediaType::Video && opt_text(node.params.video_codec) == Some(
            "xvid"@,
        ) ==> (caps.ffmpeg matches Some(a) && a.has_libxvid),
{
    law_validated_jobs_have_adapters(caps, jobs, i);
    lemma_no_job_errors(caps, jobs, i);
    let p = node.params;
    assert(caps.obstacle_to(jobs[i].params) is None);
    assert(caps.obstacle_to(p) is None);
    if wants_wmv9(p) {
        assert(caps.has("wmv9"@));
        assert(caps.wmv9 is Some) by {
            reveal_strlit("ffmpeg");
            reveal_strlit("atrac");
            reveal_strlit("wmv9");
            assert("wmv9"@.len() == 4 && "atrac"@.len() == 5 && "ffmpeg"@.len() == 6);
        }
        wmv9::law_no_obstacle_means_a_plan(caps.wmv9->0, node, scratch);
    } else if p.media_type == MediaType::Audio && is_atrac(p.audio_codec@) {
        atrac::law_no_obstacle_means_a_plan(caps.atrac->0, node, scratch);
    } else {
        ffmpeg::law_no_obstacle_means_a_plan(caps.ffmpeg->0, node, scratch);
        assert(caps.ffmpeg->0.codecs()[21] == "xvid"@);
    }
    assert("xvid"@ != "wmv9"@) by {
        reveal_strlit("xvid");
        reveal_strlit("wmv9");
        assert("xvid"@[0] != "wmv9"@[0]);
    }
}

/// A plan fails as a whole: if one job has no adapter, validation refuses all.
pub proof fn law_one_bad_job_refuses_the_plan(
    caps: ResolvedCapabilities,
    jobs: Seq<PlannedJob>,
    i: int,
)
    requires
        0 <= i < jobs.len(),
        caps.adapter_of(jobs[i].params) is None,
    ensures
        caps.plan_errors(jobs).len() > 0,
{
    if caps.plan_errors(jobs).len() == 0 {
        law_validated_jobs_have_adapters(caps, jobs, i);
    }
}

/// An empty plan needs no adapter at all.
pub proof fn law_empty_plan_is_valid(caps: ResolvedCapabilities)
    ensures
        caps.plan_errors(Seq::empty()).len() == 0,
{
    assert(caps.job_errors(Seq::empty()) =~= Seq::empty());
}

proof fn lemma_adapter_names_apart()
    ensures
        "ffmpeg"@ != "atrac"@,
        "ffmpeg"@ != "wmv9"@,
        "atrac"@ != "wmv9"@,
{
    reveal_strlit("ffmpeg");
    reveal_strlit("atrac");
    reveal_strlit("wmv9");
    assert("ffmpeg"@.len() == 6);
    assert("atrac"@.len() == 5);
    assert("wmv9"@.len() == 4);
}

/// A job goes to the adapter of its codec: WMV9 video to its own, ATRAC sound to
/// its own, everything else to FFmpeg; and to none where that one is missing.
pub proof fn law_jobs_go_to_the_adapter_of_their_codec(
    caps: ResolvedCapabilities,
    p: EncodeParams,
    r: Option<&'static str>,
)
    requires
        call_ensures(ResolvedCapabilities::adapter_for_params, (&caps, &p), r),
    ensures
        ({
            let wmv9 = p.media_type == MediaType::Video && (p.video_codec matches Some(c) && c@
                == "wmv9"@);
            let atrac = p.media_type == MediaType::Audio && (p.audio_codec@ == "atrac1"@
                || p.audio_codec@ == "atrac3"@ || p.audio_codec@ == "atrac3p"@);
            &&& r matches Some(name) ==> {
                &&& name@ == "wmv9"@ <==> wmv9
                &&& name@ == "atrac"@ <==> atrac
                &&& name@ == "ffmpeg"@ <==> !wmv9 && !atrac
            }
            &&& wmv9 ==> (r is Some <==> caps.wmv9 is Some)
            &&& atrac ==> (r is Some <==> caps.atrac is Some)
            &&& !wmv9 && !atrac ==> (r is Some <==> caps.ffmpeg is Some)
        }),
{
    lemma_adapter_names_apart();
}

/// An adapter is had under its own name and no other.
pub proof fn law_adapters_are_had_by_name(caps: ResolvedCapabilities, name: &str, r: bool)
    requires
        call_ensures(ResolvedCapabilities::has_adapter, (&caps, name), r),
    ensures
        name@ == "ffmpeg"@ ==> r == caps.ffmpeg is Some,
        name@ == "atrac"@ ==> r == caps.atrac is Some,
        name@ == "wmv9"@ ==> r == caps.wmv9 is Some,
        name@ != "ffmpeg"@ && name@ != "atrac"@ && name@ != "wmv9"@ ==> !r,
{
    lemma_adapter_names_apart();
}

/// An adapter is there exactly where its programs are: FFmpeg by itself, ATRAC
/// with one of its encoders and FFmpeg, WMV9 with its helper and FFmpeg.
pub proof fn law_adapters_need_their_programs(
    host: HostTools,
    encoders: &str,
    helper_present: bool,
    r: ResolvedCapabilities,
    ffmpeg: Option<String>,
    helper: Option<String>,
    first: Option<String>,
    second: Option<String>,
)
    requires
        call_ensures(ResolvedCapabilities::detect, (&host, encoders, helper_present), r),
        call_ensures(find_ffmpeg, (&host,), ffmpeg),
        call_ensures(find_wmv9_helper, (&host,), helper),
        call_ensures(find_tool, (&host.atracdenc,), first),
        call_ensures(find_tool, (&host.atracenc,), second),
    ensures
        r.ffmpeg is Some <==> ffmpeg is Some,
        r.atrac is Some <==> ffmpeg is Some && (first is Some || second is Some),
        r.wmv9 is Some <==> ffmpeg is Some && helper is Some && helper_present,
        r.ffmpeg matches Some(a) ==> Some(a.binary@) == opt_text(ffmpeg),
        r.atrac matches Some(a) ==> opt_text(a.ffmpeg) == opt_text(ffmpeg) && opt_text(a.atracdenc)
            == opt_text(first) && opt_text(a.atracenc) == opt_text(second),
        r.wmv9 matches Some(a) ==> Some(a.helper@) == opt_text(helper) && opt_text(a.ffmpeg)
            == opt_text(ffmpeg),
{
}

/// A plan of one job is valid exactly where the adapter of its sound and the
/// adapter of its picture are there and the adapter that runs it finds nothing in
/// its way.
pub proof fn law_single_jobs_are_valid_by_their_adapter(
    caps: ResolvedCapabilities,
    jobs: &[PlannedJob],
    r: Result<(), BbtError>,
)
    requires
        call_ensures(ResolvedCapabilities::validate_plan, (&caps, jobs), r),
        jobs@.len() == 1,
    ensures
        ({
            let p = jobs@[0].params;
            let wmv9 = p.media_type == MediaType::Video && (p.video_codec matches Some(c) && c@
                == "wmv9"@);
            let atrac = p.audio_codec@ == "atrac1"@ || p.audio_codec@ == "atrac3"@
                || p.audio_codec@ == "atrac3p"@;
            &&& r is Ok ==> {
                &&& atrac ==> caps.atrac is Some
                &&& !atrac ==> caps.ffmpeg is Some
                &&& wmv9 ==> (caps.wmv9 matches Some(a) && a.obstacle(p) is None)
                &&& !wmv9 && (p.media_type == MediaType::Video || !atrac) ==> (
                caps.ffmpeg matches Some(a) && a.obstacle(p) is None)
                &&& p.media_type == MediaType::Audio && atrac ==> (caps.atrac matches Some(a)
                    && a.obstacle(p) is None)
            }
            &&& caps.wmv9 matches Some(a) ==> wmv9 && a.obstacle(p) is None && (if atrac {
                caps.atrac is Some
            } else {
                caps.ffmpeg is Some
            }) ==> r is Ok
            &&& caps.atrac matches Some(a) ==> p.media_type == MediaType::Audio && atrac
                && a.obstacle(p) is None ==> r is Ok
            &&& caps.ffmpeg matches Some(a) ==> !wmv9 && !atrac && a.obstacle(p) is None ==> r is Ok
            &&& caps.ffmpeg is None && caps.atrac is None && caps.wmv9 is None && !wmv9 && !atrac
                ==> (r matches Err(e) && e matches BbtError::CapabilityError(text) && text@
                == "FFmpeg is required but not found in PATH. Install from https://ffmpeg.org or via your package manager."@
                + "\n"@ + ("no adapter can encode to codec '"@ + p.audio_codec@ + "'"@ + " (file: "@
                + jobs@[0].source_path@ + ")"@))
        }),
{
    lemma_adapter_names_apart();
    let p = jobs@[0].params;
    assert(jobs@.drop_last() =~= Seq::<PlannedJob>::empty());
    assert(caps.job_errors(Seq::empty()) =~= Seq::<Seq<char>>::empty());
    assert(jobs@.last() == jobs@[0]);
    assert(caps.job_errors(jobs@) =~= caps.job_error(jobs@[0]));
    let atrac = is_atrac(p.audio_codec@);
    assert(atrac ==> exists|i: int|
        0 <= i < jobs@.len() && is_atrac((#[trigger] jobs@[i]).params.audio_codec@));
    assert(!atrac ==> exists|i: int|
        0 <= i < jobs@.len() && !is_atrac((#[trigger] jobs@[i]).params.audio_codec@));
    assert(wants_wmv9(p) ==> exists|i: int|
        0 <= i < jobs@.len() && wants_wmv9((#[trigger] jobs@[i]).params));
    if caps.ffmpeg is None && caps.atrac is None && caps.wmv9 is None && !wants_wmv9(p) && !atrac {
        let said = codec_refused(p.audio_codec@) + " (file: "@ + jobs@[0].source_path@ + ")"@;
        let all = caps.plan_errors(jobs@);
        assert(all =~= seq![ffmpeg_missing(), said]);
        assert(all.drop_last() =~= seq![ffmpeg_missing()]);
        reveal_with_fuel(join, 3);
        assert(join(all, "\n"@) == ffmpeg_missing() + "\n"@ + said);
        assert(said =~= "no adapter can encode to codec '"@ + p.audio_codec@ + "'"@ + " (file: "@
            + jobs@[0].source_path@ + ")"@);
    }
}

/// A plan is valid exactly where each of its jobs is valid alone.
pub proof fn law_plans_are_valid_job_by_job(
    caps: ResolvedCapabilities,
    jobs: &[PlannedJob],
    r: Result<(), BbtError>,
    one: &[PlannedJob],
    alone: Result<(), BbtError>,
    i: int,
)
    requires
        call_ensures(ResolvedCapabilities::validate_plan, (&caps, jobs), r),
        call_ensures(ResolvedCapabilities::validate_plan, (&caps, one), alone),
        0 <= i < jobs@.len(),
        one@ == seq![jobs@[i]],
    ensures
        r is Ok ==> alone is Ok,
        jobs@.len() == 1 ==> r is Ok == alone is Ok,
{
    let p = jobs@[i].params;
    assert(one@[0] == jobs@[i]);
    assert(one@.drop_last() =~= Seq::<PlannedJob>::empty());
    assert(caps.job_errors(Seq::empty()) =~= Seq::<Seq<char>>::empty());
    assert(one@.last() == jobs@[i]);
    assert(caps.job_errors(one@) =~= caps.job_error(jobs@[i]));
    if jobs@.len() == 1 {
        assert(jobs@ =~= one@);
    }
    if r is Ok {
        lemma_no_job_errors(caps, jobs@, i);
        assert(is_atrac(p.audio_codec@) ==> caps.has("atrac"@));
        assert(!is_atrac(p.audio_codec@) ==> caps.has("ffmpeg"@));
        assert(wants_wmv9(p) ==> caps.has("wmv9"@));
    }
}

/// Giving the jobs their adapters gives each the adapter that is found for its
/// parameters, and changes nothing else of any job.
pub proof fn law_jobs_get_the_adapter_that_is_found(
    caps: &ResolvedCapabilities,
    jobs: &mut Vec<PlannedJob>,
    i: int,
    found: Option<&'static str>,
)
    requires
        0 <= i < old(jobs)@.len(),
        call_ensures(ResolvedCapabilities::assign_adapters, (caps, jobs), ()),
        call_ensures(
            ResolvedCapabilities::adapter_for_params,
            (caps, &old(jobs)@[i].params),
            found,
        ),
    ensures
        final(jobs)@.len() == old(jobs)@.len(),
        found matches Some(name) ==> (final(jobs)@[i].assigned_adapter matches Some(a) && a@
            == name@),
        found is None ==> final(jobs)@[i].assigned_adapter is None,
        final(jobs)@[i].source_path == old(jobs)@[i].source_path,
        final(jobs)@[i].output_path == old(jobs)@[i].output_path,
        final(jobs)@[i].params == old(jobs)@[i].params,
        final(jobs)@[i].fingerprint == old(jobs)@[i].fingerprint,
{
    assert(opt_text(final(jobs)@[i].assigned_adapter) == caps.adapter_of(old(jobs)@[i].params));
}

/// Jobs that are each valid alone are valid together.
pub proof fn law_valid_jobs_make_a_valid_plan(
    caps: ResolvedCapabilities,
    jobs: &[PlannedJob],
    r: Result<(), BbtError>,
)
    requires
        call_ensures(ResolvedCapabilities::validate_plan, (&caps, jobs), r),
        forall|i: int|
            0 <= i < jobs@.len() ==> caps.plan_errors(seq![#[trigger] jobs@[i]]).len() == 0,
    ensures
        r is Ok,
{
    assert forall|i: int| 0 <= i < jobs@.len() implies {
        &&& caps.job_error(#[trigger] jobs@[i]).len() == 0
        &&& is_atrac(jobs@[i].params.audio_codec@) ==> caps.has("atrac"@)
        &&& !is_atrac(jobs@[i].params.audio_codec@) ==> caps.has("ffmpeg"@)
        &&& wants_wmv9(jobs@[i].params) ==> caps.has("wmv9"@)
    } by {
        let one = seq![jobs@[i]];
        assert(caps.plan_errors(one).len() == 0);
        assert(one[0] == jobs@[i]);
        assert(caps.job_errors(one).len() == 0);
        lemma_no_job_errors(caps, one, 0);
    }
    lemma_all_jobs_fine(caps, jobs@);
}

proof fn lemma_all_jobs_fine(caps: ResolvedCapabilities, jobs: Seq<PlannedJob>)
    requires
        forall|i: int| 0 <= i < jobs.len() ==> caps.job_error(#[trigger] jobs[i]).len() == 0,
    ensures
        caps.job_errors(jobs).len() == 0,
    decreases jobs.len(),
{
    if jobs.len() > 0 {
        let front = jobs.drop_last();
        assert forall|i: int| 0 <= i < front.len() implies caps.job_error(
            #[trigger] front[i],
        ).len() == 0 by {
            assert(front[i] == jobs[i]);
        }
        lemma_all_jobs_fine(caps, front);
        assert(jobs[jobs.len() - 1] == jobs.last());
    }
}

/// A missing helper and a missing ATRAC encoder are told in their own words.
pub proof fn law_missing_encoders_are_told(
    caps: ResolvedCapabilities,
    jobs: &[PlannedJob],
    r: Result<(), BbtError>,
)
    requires
        call_ensures(ResolvedCapabilities::validate_plan, (&caps, jobs), r),
        jobs@.len() == 1,
    ensures
        ({
            let p = jobs@[0].params;
            let wmv9 = p.media_type == MediaType::Video && (p.video_codec matches Some(c) && c@
                == "wmv9"@);
            let atrac = p.audio_codec@ == "atrac1"@ || p.audio_codec@ == "atrac3"@
                || p.audio_codec@ == "atrac3p"@;
            &&& wmv9 && !atrac && caps.ffmpeg is Some && caps.wmv9 is None ==> (r matches Err(e)
                && e matches BbtError::CapabilityError(text) && text@
                == "WMV9 video encoding requires the Windows build of bbt (it uses the OS Media Foundation encoder via the bundled bbt-wmv9 helper). There is no cross-platform WMV9 encoder — FFmpeg can only encode WMV7/WMV8, which these devices reject. Run this on Windows, or set BBT_WMV9_PATH to a bbt-wmv9.exe build."@)
            &&& p.media_type == MediaType::Audio && atrac && caps.atrac is None ==> (
            r matches Err(e) && e matches BbtError::CapabilityError(text) && text@
                == "ATRAC encoding requires atracdenc (open source) or atracenc. Install atracdenc from https://github.com/dcherednik/atracdenc and ensure it is in your PATH."@
                + "\n"@ + ("no adapter can encode to codec '"@ + p.audio_codec@ + "'"@ + " (file: "@
                + jobs@[0].source_path@ + ")"@))
        }),
{
    lemma_adapter_names_apart();
    let p = jobs@[0].params;
    assert(jobs@.drop_last() =~= Seq::<PlannedJob>::empty());
    assert(caps.job_errors(Seq::empty()) =~= Seq::<Seq<char>>::empty());
    assert(jobs@.last() == jobs@[0]);
    assert(caps.job_errors(jobs@) =~= caps.job_error(jobs@[0]));
    let atrac = is_atrac(p.audio_codec@);
    assert(atrac ==> exists|i: int|
        0 <= i < jobs@.len() && is_atrac((#[trigger] jobs@[i]).params.audio_codec@));
    assert(!atrac ==> exists|i: int|
        0 <= i < jobs@.len() && !is_atrac((#[trigger] jobs@[i]).params.audio_codec@));
    assert(wants_wmv9(p) ==> exists|i: int|
        0 <= i < jobs@.len() && wants_wmv9((#[trigger] jobs@[i]).params));
    let all = caps.plan_errors(jobs@);
    reveal_with_fuel(join, 3);
    if wants_wmv9(p) && !atrac && caps.ffmpeg is Some && caps.wmv9 is None {
        assert(all =~= seq![wmv9_missing()]);
    }
    if p.media_type == MediaType::Audio && atrac && caps.atrac is None {
        let said = codec_refused(p.audio_codec@) + " (file: "@ + jobs@[0].source_path@ + ")"@;
        assert(all =~= seq![atrac_missing(), said]);
        assert(all.drop_last() =~= seq![atrac_missing()]);
        assert(join(all, "\n"@) == atrac_missing() + "\n"@ + said);
    }
}

} // verus!
