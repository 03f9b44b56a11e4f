//! Progress events, and what a person is shown of them.
//!
//! For machines each event is one line of JSON. For people there is a progress
//! bar and a few lines of text: the emitter turns an event into the actions that
//! a terminal performs.

use crate::text::{decimal, decimal_text};
use vstd::prelude::*;
use vstd::string::*;

verus! {

/// A phase of the pipeline.
#[derive(Debug, Clone, Copy, PartialEq, Eq, Structural)]
pub enum Phase {
    Probe,
    Plan,
    Resolve,
    Encode,
}

/// A progress event. Every event can be understood on its own.
#[allow(inconsistent_fields)]
#[derive(Debug)]
pub enum Event {
    /// A phase begins.
    PhaseStart {
        phase: Phase,
        /// How many items it has, if that is known.
        total: Option<usize>,
        /// How many artifacts of an earlier run are kept.
        carrying_forward: Option<usize>,
    },
    /// A file was processed within a phase.
    FileComplete {
        phase: Phase,
        current: usize,
        total: usize,
        file: String,
        output: Option<String>,
        elapsed_ms: u64,
        success: bool,
        error: Option<String>,
    },
    /// The encode of a file begins.
    EncodeStart { current: usize, total: usize, file: String, output: String },
    /// A phase is complete.
    PhaseComplete {
        phase: Phase,
        total: Option<usize>,
        jobs: Option<usize>,
        skipped: Option<usize>,
        success: Option<usize>,
        failed: Option<usize>,
    },
    /// The whole operation failed.
    OperationFailed { phase: Option<Phase>, error: String },
    /// All phases are complete.
    Complete {
        success: usize,
        failed: usize,
        total_elapsed_ms: u64,
        manifest: String,
        carried_forward: Option<usize>,
        re_encoded: Option<usize>,
    },
}

/// How a progress bar looks.
#[derive(Debug, Clone, Copy, PartialEq, Eq, Structural)]
pub enum BarStyle {
    Probing,
    Encoding,
}

/// What a terminal does for an event.
#[derive(Debug)]
pub enum Action {
    /// Print the event itself, as a line of JSON.
    PrintEvent,
    /// Finish and clear the bar.
    FinishBar,
    /// Start a bar of some length.
    StartBar { style: BarStyle, len: usize },
    /// Show a message beside the bar.
    SetMessage { text: String },
    /// Move the bar by one.
    Advance,
    /// Write text to the error stream, without a line break.
    Note { text: String },
    /// Write a line to the error stream.
    NoteLine { text: String },
    /// Write a line to the output stream.
    PrintLine { text: String },
}

/// An action, by its text.
pub ghost enum ActionText {
    PrintEvent,
    FinishBar,
    StartBar { style: BarStyle, len: usize },
    SetMessage { text: Seq<char> },
    Advance,
    Note { text: Seq<char> },
    NoteLine { text: Seq<char> },
    PrintLine { text: Seq<char> },
}

impl View for Action {
    type V = ActionText;

    open spec fn view(&self) -> ActionText {
        match self {
            Action::PrintEvent => ActionText::PrintEvent,
            Action::FinishBar => ActionText::FinishBar,
            Action::StartBar { style, len } => ActionText::StartBar { style: *style, len: *len },
            Action::SetMessage { text } => ActionText::SetMessage { text: text@ },
            Action::Advance => ActionText::Advance,
            Action::Note { text } => ActionText::Note { text: text@ },
            Action::NoteLine { text } => ActionText::NoteLine { text: text@ },
            Action::PrintLine { text } => ActionText::PrintLine { text: text@ },
        }
    }
}

/// Actions, by their texts.
pub open spec fn action_texts(v: Seq<Action>) -> Seq<ActionText> {
    v.map_values(|a: Action| a@)
}

/// Texts of an event that are made outside: the last part of its file's path,
/// and its elapsed time in seconds with one decimal.
#[derive(Debug)]
pub struct EventNames {
    pub file_name: String,
    pub seconds: String,
}

/// A number that is present, else zero.
pub open spec fn count(n: Option<usize>) -> usize {
    match n {
        Some(x) => x,
        None => 0,
    }
}

/// The end of an open bar.
pub open spec fn closing(has_bar: bool) -> Seq<ActionText> {
    if has_bar {
        seq![ActionText::FinishBar]
    } else {
        Seq::empty()
    }
}

/// What a person is shown when a phase begins.
pub open spec fn phase_opening(phase: Phase, total: Option<usize>) -> ActionText {
    match phase {
        Phase::Probe => ActionText::StartBar { style: BarStyle::Probing, len: count(total) },
        Phase::Plan => ActionText::Note { text: "  Planning..."@ },
        Phase::Resolve => ActionText::Note { text: "  Checking capabilities..."@ },
        Phase::Encode => ActionText::StartBar { style: BarStyle::Encoding, len: count(total) },
    }
}

/// What a person is told when a phase is complete. The end of probing goes
/// without saying: the plan reports the counts.
pub open spec fn phase_summary(
    phase: Phase,
    jobs: Option<usize>,
    skipped: Option<usize>,
    success: Option<usize>,
    failed: Option<usize>,
) -> Seq<ActionText> {
    match phase {
        Phase::Probe => Seq::empty(),
        Phase::Plan => seq![
            ActionText::NoteLine {
                text: " "@ + decimal(count(jobs) as nat) + " to transcode"@ + (if count(skipped)
                    > 0 {
                    ", "@ + decimal(count(skipped) as nat) + " already in target format"@
                } else {
                    Seq::empty()
                }),
            },
        ],
        Phase::Resolve => seq![ActionText::NoteLine { text: " ok"@ }],
        Phase::Encode => seq![
            ActionText::NoteLine {
                text: "  encoded: "@ + decimal(count(success) as nat) + " ok, "@ + decimal(
                    count(failed) as nat,
                ) + " failed"@,
            },
        ],
    }
}

/// What a person is shown of an event, with or without an open bar.
pub open spec fn human_view(event: Event, names: EventNames, has_bar: bool) -> Seq<ActionText> {
    match event {
        Event::PhaseStart { phase, total, .. } => closing(has_bar).push(phase_opening(phase, total)),
        Event::FileComplete { phase: Phase::Probe, .. } => if has_bar {
            seq![ActionText::SetMessage { text: names.file_name@ }, ActionText::Advance]
        } else {
            Seq::empty()
        },
        Event::FileComplete { phase: Phase::Encode, success, error, .. } => (if has_bar {
            seq![ActionText::Advance]
        } else {
            Seq::empty()
        }) + (if !success && error is Some {
            seq![ActionText::NoteLine { text: "\n  error: "@ + error->0@ }]
        } else {
            Seq::empty()
        }),
        Event::FileComplete { .. } => Seq::empty(),
        Event::EncodeStart { .. } => if has_bar {
            seq![ActionText::SetMessage { text: names.file_name@ }]
        } else {
            Seq::empty()
        },
        Event::PhaseComplete { phase, jobs, skipped, success, failed, .. } => closing(has_bar)
            + phase_summary(phase, jobs, skipped, success, failed),
        Event::OperationFailed { .. } => closing(has_bar),
        Event::Complete { success, failed, manifest, .. } => closing(has_bar).push(
            ActionText::PrintLine {
                text: "\n"@ + decimal(success as nat) + " succeeded, "@ + decimal(failed as nat)
                    + " failed  ("@ + names.seconds@ + "s)\nmanifest: "@ + manifest@,
            },
        ),
    }
}

/// Whether there is a bar after an event.
pub open spec fn bar_after(event: Event, has_bar: bool) -> bool {
    match event {
        Event::PhaseStart { phase, .. } => phase == Phase::Probe || phase == Phase::Encode,
        Event::FileComplete { .. } => has_bar,
        Event::EncodeStart { .. } => has_bar,
        Event::PhaseComplete { .. } => false,
        Event::OperationFailed { .. } => false,
        Event::Complete { .. } => false,
    }
}

/// Turns events into actions.
#[derive(Debug)]
pub struct Emitter {
    pub json_mode: bool,
    /// Whether a progress bar is open.
    pub has_bar: bool,
}

fn push_close(actions: &mut Vec<Action>, has_bar: bool)
    ensures
        action_texts(final(actions)@) == action_texts(old(actions)@) + closing(has_bar),
{
    if has_bar {
        actions.push(Action::FinishBar);
    }
    assert(action_texts(actions@) =~= action_texts(old(actions)@) + closing(has_bar));
}

fn summary_text(jobs: usize, skipped: usize) -> (r: String)
    ensures
        r@ == " "@ + decimal(jobs as nat) + " to transcode"@ + (if skipped > 0 {
            ", "@ + decimal(skipped as nat) + " already in target format"@
        } else {
            Seq::empty()
        }),
{
    let mut m = " ".to_owned();
    m.append(decimal_text(jobs as u64).as_str());
    m.append(" to transcode");
    let ghost front = m@;
    if skipped > 0 {
        m.append(", ");
        m.append(decimal_text(skipped as u64).as_str());
        m.append(" already in target format");
        assert(m@ =~= front + (", "@ + decimal(skipped as nat) + " already in target format"@));
    } else {
        assert(m@ =~= front + Seq::empty());
    }
    m
}

fn encoded_text(success: usize, failed: usize) -> (r: String)
    ensures
        r@ == "  encoded: "@ + decimal(success as nat) + " ok, "@ + decimal(failed as nat)
            + " failed"@,
{
    let mut m = "  encoded: ".to_owned();
    m.append(decimal_text(success as u64).as_str());
    m.append(" ok, ");
    m.append(decimal_text(failed as u64).as_str());
    m.append(" failed");
    m
}

fn complete_text(success: usize, failed: usize, seconds: &str, manifest: &str) -> (r: String)
    ensures
        r@ == "\n"@ + decimal(success as nat) + " succeeded, "@ + decimal(failed as nat)
            + " failed  ("@ + seconds@ + "s)\nmanifest: "@ + manifest@,
{
    let mut m = "\n".to_owned();
    m.append(decimal_text(success as u64).as_str());
    m.append(" succeeded, ");
    m.append(decimal_text(failed as u64).as_str());
    m.append(" failed  (");
    m.append(seconds);
    m.append("s)\nmanifest: ");
    m.append(manifest);
    m
}

fn number(n: Option<usize>) -> (r: usize)
    ensures
        r == count(n),
{
    n.unwrap_or(0)
}

impl Emitter {
    pub fn new(json_mode: bool) -> (r: Emitter)
        ensures
            r.json_mode == json_mode,
            !r.has_bar,
    {
        Emitter { json_mode, has_bar: false }
    }

    /// What is done for an event: its JSON for machines, its view for people.
    pub fn emit(&mut self, event: &Event, names: &EventNames) -> (r: Vec<Action>)
        ensures
            final(self).json_mode == old(self).json_mode,
            old(self).json_mode ==> final(self).has_bar == old(self).has_bar && action_texts(r@)
                == seq![ActionText::PrintEvent],
            !old(self).json_mode ==> final(self).has_bar == bar_after(*event, old(self).has_bar)
                && action_texts(r@) == human_view(*event, *names, old(self).has_bar),
    {
        if self.json_mode {
            let r = vec![Action::PrintEvent];
            assert(action_texts(r@) =~= seq![ActionText::PrintEvent]);
            r
        } else {
            self.render_human(event, names)
        }
    }

    /// What a person is shown of an event.
    pub fn render_human(&mut self, event: &Event, names: &EventNames) -> (r: Vec<Action>)
        ensures
            final(self).json_mode == old(self).json_mode,
            final(self).has_bar == bar_after(*event, old(self).has_bar),
            action_texts(r@) == human_view(*event, *names, old(self).has_bar),
    {
        let mut actions: Vec<Action> = Vec::new();
        let had_bar = self.has_bar;
        assert(action_texts(actions@) =~= Seq::<ActionText>::empty());
        match event {
            Event::PhaseStart { phase, total, .. } => {
                push_close(&mut actions, had_bar);
                self.has_bar = false;
                match phase {
                    Phase::Probe => {
                        actions.push(
                            Action::StartBar { style: BarStyle::Probing, len: number(*total) },
                        );
                        self.has_bar = true;
                    },
                    Phase::Plan => actions.push(Action::Note { text: "  Planning...".to_owned() }),
                    Phase::Resolve => actions.push(
                        Action::Note { text: "  Checking capabilities...".to_owned() },
                    ),
                    Phase::Encode => {
                        actions.push(
                            Action::StartBar { style: BarStyle::Encoding, len: number(*total) },
                        );
                        self.has_bar = true;
                    },
                }
            },
            Event::FileComplete { phase, success, error, .. } => match phase {
                Phase::Probe => {
                    if had_bar {
                        actions.push(Action::SetMessage { text: names.file_name.clone() });
                        actions.push(Action::Advance);
                    }
                },
                Phase::Encode => {
                    if had_bar {
                        actions.push(Action::Advance);
                    }
                    if !*success {
                        if let Some(e) = error {
                            let mut m = "\n  error: ".to_owned();
                            m.append(e.as_str());
                            actions.push(Action::NoteLine { text: m });
                        }
                    }
                },
                _ => {},
            },
            Event::EncodeStart { .. } => {
                if had_bar {
                    actions.push(Action::SetMessage { text: names.file_name.clone() });
                }
            },
            Event::PhaseComplete { phase, jobs, skipped, success, failed, .. } => {
                push_close(&mut actions, had_bar);
                self.has_bar = false;
                match phase {
                    Phase::Probe => {},
                    Phase::Plan => actions.push(
                        Action::NoteLine { text: summary_text(number(*jobs), number(*skipped)) },
                    ),
                    Phase::Resolve => actions.push(Action::NoteLine { text: " ok".to_owned() }),
                    Phase::Encode => actions.push(
                        Action::NoteLine { text: encoded_text(number(*success), number(*failed)) },
                    ),
                }
            },
            Event::OperationFailed { .. } => {
                push_close(&mut actions, had_bar);
                self.has_bar = false;
            },
            Event::Complete { success, failed, manifest, .. } => {
                push_close(&mut actions, had_bar);
                self.has_bar = false;
                actions.push(
                    Action::PrintLine {
                        text: complete_text(
                            *success,
                            *failed,
                            names.seconds.as_str(),
                            manifest.as_str(),
                        ),
                    },
                );
            },
        }
        assert(action_texts(actions@) =~= human_view(*event, *names, had_bar));
        actions
    }
}

// ---- laws -----------------------------------------------------------------

/// Whether there is a bar after some actions; none where an action was out of
/// place: a bar started over another, or a bar moved that is not there.
pub open spec fn bar_through(has_bar: bool, actions: Seq<ActionText>) -> Option<bool>
    decreases actions.len(),
{
    if actions.len() == 0 {
        Some(has_bar)
    } else {
        match (bar_through(has_bar, actions.drop_last()), actions.last()) {
            (None, _) => None,
            (Some(open), ActionText::StartBar { .. }) => if open {
                None
            } else {
                Some(true)
            },
            (Some(open), ActionText::FinishBar) => if open {
                Some(false)
            } else {
                None
            },
            (Some(open), ActionText::Advance) => if open {
                Some(true)
            } else {
                None
            },
            (Some(open), ActionText::SetMessage { .. }) => if open {
                Some(true)
            } else {
                None
            },
            (Some(open), _) => Some(open),
        }
    }
}

/// There is never more than one progress bar, only an open one is moved, and the
/// emitter knows whether there is one.
pub proof fn law_one_bar_at_a_time(event: Event, names: EventNames, has_bar: bool)
    ensures
        bar_through(has_bar, human_view(event, names, has_bar)) == Some(
            bar_after(event, has_bar),
        ),
{
    reveal_with_fuel(bar_through, 4);
    let v = human_view(event, names, has_bar);
    if has_bar {
        assert(closing(has_bar).drop_last() =~= Seq::<ActionText>::empty());
    }
    match event {
        Event::PhaseStart { .. } => {
            assert(v.drop_last() =~= closing(has_bar));
        },
        Event::FileComplete { phase: Phase::Probe, .. } => {
            if has_bar {
                assert(v.drop_last() =~= seq![ActionText::SetMessage { text: names.file_name@ }]);
                assert(v.drop_last().drop_last() =~= Seq::<ActionText>::empty());
            }
        },
        Event::FileComplete { phase: Phase::Encode, success, error, .. } => {
            if !success && error is Some {
                if has_bar {
                    assert(v.drop_last() =~= seq![ActionText::Advance]);
                    assert(v.drop_last().drop_last() =~= Seq::<ActionText>::empty());
                } else {
                    assert(v.drop_last() =~= Seq::<ActionText>::empty());
                }
            } else if has_bar {
                assert(v =~= seq![ActionText::Advance]);
                assert(v.drop_last() =~= Seq::<ActionText>::empty());
            }
        },
        Event::FileComplete { .. } => {},
        Event::EncodeStart { .. } => {
            if has_bar {
                assert(v.drop_last() =~= Seq::<ActionText>::empty());
            }
        },
        Event::PhaseComplete { phase, .. } => {
            if phase == Phase::Probe {
                assert(v =~= closing(has_bar));
            } else {
                assert(v.drop_last() =~= closing(has_bar));
            }
        },
        Event::OperationFailed { .. } => {},
        Event::Complete { .. } => {
            assert(v.drop_last() =~= closing(has_bar));
        },
    }
}

proof fn lemma_people_get_no_raw_event(event: Event, names: EventNames, has_bar: bool, i: int)
    requires
        0 <= i < human_view(event, names, has_bar).len(),
    ensures
        !(human_view(event, names, has_bar)[i] is PrintEvent),
{
    let v = human_view(event, names, has_bar);
    let c = closing(has_bar);
    match event {
        Event::PhaseStart { phase, total, .. } => {
            assert(v == c.push(phase_opening(phase, total)));
        },
        Event::FileComplete { phase, success, error, .. } => {
            if phase == Phase::Encode {
                let moved = if has_bar {
                    seq![ActionText::Advance]
                } else {
                    Seq::empty()
                };
                let told = if !success && error is Some {
                    seq![ActionText::NoteLine { text: "\n  error: "@ + error->0@ }]
                } else {
                    Seq::empty()
                };
                assert(v == moved + told);
                if i >= moved.len() {
                    assert(v[i] == told[i - moved.len()]);
                }
            }
        },
        Event::EncodeStart { .. } => {},
        Event::PhaseComplete { phase, jobs, skipped, success, failed, .. } => {
            let told = phase_summary(phase, jobs, skipped, success, failed);
            assert(v == c + told);
            if i >= c.len() {
                assert(v[i] == told[i - c.len()]);
            }
        },
        Event::OperationFailed { .. } => {},
        Event::Complete { .. } => {
            if i < c.len() {
                assert(v[i] == c[i]);
            }
        },
    }
}

/// For machines every event is printed, and nothing else is done.
pub proof fn law_machines_get_every_event(
    emitter: &mut Emitter,
    event: &Event,
    names: &EventNames,
    r: Vec<Action>,
)
    requires
        call_ensures(Emitter::emit, (emitter, event, names), r),
    ensures
        final(emitter).json_mode == old(emitter).json_mode,
        old(emitter).json_mode ==> r@.len() == 1 && r@[0] is PrintEvent && final(emitter).has_bar
            == old(emitter).has_bar,
        !old(emitter).json_mode ==> forall|i: int|
            0 <= i < r@.len() ==> !((#[trigger] r@[i]) is PrintEvent),
{
    let t = action_texts(r@);
    assert forall|i: int| 0 <= i < r@.len() implies t[i] == (#[trigger] r@[i])@ by {}
    if old(emitter).json_mode {
        assert(t.len() == 1);
        assert(t[0] == r@[0]@);
    } else {
        let v = human_view(*event, *names, old(emitter).has_bar);
        assert(t == v);
        assert forall|i: int| 0 <= i < r@.len() implies !((#[trigger] r@[i]) is PrintEvent) by {
            assert(t[i] == r@[i]@);
            lemma_people_get_no_raw_event(*event, *names, old(emitter).has_bar, i);
        }
    }
}

/// A phase that begins closes the bar before it. Probing and encoding open a bar
/// of their own kind as long as they have items; the others say what they do.
pub proof fn law_phases_open_as_they_are(
    emitter: &mut Emitter,
    names: &EventNames,
    phase: Phase,
    total: Option<usize>,
    carrying: Option<usize>,
    r: Vec<Action>,
)
    requires
        call_ensures(
            Emitter::render_human,
            (emitter, &(Event::PhaseStart { phase, total, carrying_forward: carrying }), names),
            r,
        ),
    ensures
        r@.len() == (if old(emitter).has_bar {
            2int
        } else {
            1
        }),
        old(emitter).has_bar ==> r@[0] is FinishBar,
        phase == Phase::Probe ==> (r@.last() matches Action::StartBar { style, len } && style
            == BarStyle::Probing && len == (if total is Some {
            total->0
        } else {
            0
        })),
        phase == Phase::Encode ==> (r@.last() matches Action::StartBar { style, len } && style
            == BarStyle::Encoding && len == (if total is Some {
            total->0
        } else {
            0
        })),
        phase == Phase::Plan ==> (r@.last() matches Action::Note { text } && text@
            == "  Planning..."@),
        phase == Phase::Resolve ==> (r@.last() matches Action::Note { text } && text@
            == "  Checking capabilities..."@),
        final(emitter).has_bar <==> phase == Phase::Probe || phase == Phase::Encode,
{
    let t = action_texts(r@);
    assert(t.len() == r@.len());
    assert(t[0] == r@[0]@);
    assert(t.last() == r@.last()@);
}

/// A phase that is complete closes its bar and tells its counts: the plan how
/// many are to be encoded and, if any, how many need not be; the encodes how many
/// went well and how many failed. Probing tells nothing.
pub proof fn law_phases_close_with_their_counts(
    emitter: &mut Emitter,
    names: &EventNames,
    phase: Phase,
    total: Option<usize>,
    jobs: usize,
    skipped: usize,
    good: usize,
    bad: usize,
    r: Vec<Action>,
)
    requires
        call_ensures(
            Emitter::render_human,
            (
                emitter,
                &(Event::PhaseComplete {
                    phase,
                    total,
                    jobs: Some(jobs),
                    skipped: Some(skipped),
                    success: Some(good),
                    failed: Some(bad),
                }),
                names,
            ),
            r,
        ),
    ensures
        !final(emitter).has_bar,
        old(emitter).has_bar ==> r@.len() > 0 && r@[0] is FinishBar,
        phase == Phase::Probe ==> r@.len() == (if old(emitter).has_bar {
            1int
        } else {
            0
        }),
        phase != Phase::Probe ==> r@.len() == (if old(emitter).has_bar {
            2int
        } else {
            1
        }),
        phase == Phase::Plan && skipped == 0 ==> (r@.last() matches Action::NoteLine { text }
            && text@ == " "@ + decimal(jobs as nat) + " to transcode"@),
        phase == Phase::Plan && skipped > 0 ==> (r@.last() matches Action::NoteLine { text }
            && text@ == " "@ + decimal(jobs as nat) + " to transcode"@ + (", "@ + decimal(
            skipped as nat,
        ) + " already in target format"@)),
        phase == Phase::Resolve ==> (r@.last() matches Action::NoteLine { text } && text@
            == " ok"@),
        phase == Phase::Encode ==> (r@.last() matches Action::NoteLine { text } && text@
            == "  encoded: "@ + decimal(good as nat) + " ok, "@ + decimal(bad as nat)
            + " failed"@),
{
    let t = action_texts(r@);
    assert(t.len() == r@.len());
    let front = " "@ + decimal(jobs as nat) + " to transcode"@;
    assert(front + Seq::<char>::empty() =~= front);
    if r@.len() > 0 {
        assert(t[0] == r@[0]@);
        assert(t.last() == r@.last()@);
    }
}

/// A processed file moves the bar; a probed one is named beside it, and an encode
/// that failed is told with its error. The end tells the successes, the failures,
/// the time and where the manifest is.
pub proof fn law_files_move_the_bar(
    emitter: &mut Emitter,
    event: &Event,
    names: &EventNames,
    r: Vec<Action>,
)
    requires
        call_ensures(Emitter::render_human, (emitter, event, names), r),
        old(emitter).has_bar,
    ensures
        *event matches Event::FileComplete { phase, success, error, .. } ==> {
            &&& phase == Phase::Probe ==> r@.len() == 2 && (
            r@[0] matches Action::SetMessage { text } && text@ == names.file_name@)
                && r@[1] is Advance
            &&& phase == Phase::Encode ==> r@.len() > 0 && r@[0] is Advance
            &&& phase == Phase::Encode && (success || error is None) ==> r@.len() == 1
            &&& error matches Some(e) ==> phase == Phase::Encode && !success ==> r@.len() == 2 && (
            r@[1] matches Action::NoteLine { text } && text@ == "\n  error: "@ + e@)
            &&& final(emitter).has_bar
        },
        *event is EncodeStart ==> r@.len() == 1 && (r@[0] matches Action::SetMessage { text }
            && text@ == names.file_name@) && final(emitter).has_bar,
        *event is OperationFailed ==> r@.len() == 1 && r@[0] is FinishBar
            && !final(emitter).has_bar,
        *event matches Event::Complete { success, failed, manifest, .. } ==> {
            &&& r@.len() == 2 && r@[0] is FinishBar && !final(emitter).has_bar
            &&& r@[1] matches Action::PrintLine { text } && text@ == "\n"@ + decimal(success as nat)
                + " succeeded, "@ + decimal(failed as nat) + " failed  ("@ + names.seconds@
                + "s)\nmanifest: "@ + manifest@
        },
{
    let t = action_texts(r@);
    assert(t.len() == r@.len());
    if r@.len() > 0 {
        assert(t[0] == r@[0]@);
    }
    if r@.len() > 1 {
        assert(t[1] == r@[1]@);
    }
}

/// Without a bar nothing is moved: a file that was probed or begun shows nothing,
/// and one that was encoded only its error.
pub proof fn law_without_a_bar_only_errors_show(
    emitter: &mut Emitter,
    event: &Event,
    names: &EventNames,
    r: Vec<Action>,
)
    requires
        call_ensures(Emitter::render_human, (emitter, event, names), r),
        !old(emitter).has_bar,
    ensures
        *event matches Event::FileComplete { phase, success, error, .. } ==> {
            &&& phase != Phase::Encode || success || error is None ==> r@.len() == 0
            &&& error matches Some(e) ==> phase == Phase::Encode && !success ==> r@.len() == 1 && (
            r@[0] matches Action::NoteLine { text } && text@ == "\n  error: "@ + e@)
            &&& !final(emitter).has_bar
        },
        *event is EncodeStart ==> r@.len() == 0 && !final(emitter).has_bar,
        *event is OperationFailed ==> r@.len() == 0 && !final(emitter).has_bar,
        *event is Complete ==> r@.len() == 1 && r@[0] is PrintLine,
{
    let t = action_texts(r@);
    assert(t.len() == r@.len());
    if r@.len() > 0 {
        assert(t[0] == r@[0]@);
    }
}

} // verus!
