use vstd::prelude::*;
use vstd::string::*;

use crate::error::Error;
use crate::json::{field, fields_view, json_items, Json, JsonV};
use crate::playtools::{bgr_to_rgba_spec, Frame};
use crate::screen::{
    frame_size_text, image_dims, png_dimensions, png_rgba, scale_coord, CoordSpace, Geometry,
};
use crate::session::{frame_digest, frame_hash, BgrFrame};
use crate::text::{debug_str, debug_text, nat_text, push_str, str_eq, write_u64};

verus! {

broadcast use vstd::string::group_string_axioms;

/// The pause between the two frames compared to tell whether the battle is paused (ms).
pub const PAUSE_GAP_MS: u64 = 1200;

/// Whether a state is one a task does not leave: completed, error or stopped.
pub open spec fn terminal_text(s: Option<Seq<char>>) -> bool {
    match s {
        Some(t) => t == "completed"@ || t == "error"@ || t == "stopped"@,
        None => false,
    }
}

/// The view of an optional string.
pub open spec fn opt_view(o: Option<String>) -> Option<Seq<char>> {
    match o {
        Some(s) => Some(s@),
        None => None,
    }
}

/// Whether a task state is terminal; see `terminal_text`.
pub fn is_terminal(state: Option<&str>) -> (r: bool)
    ensures
        r == terminal_text(
            match state {
                Some(s) => Some(s@),
                None => None,
            },
        ),
{
    match state {
        Some(s) => str_eq(s, "completed") || str_eq(s, "error") || str_eq(s, "stopped"),
        None => false,
    }
}

/// Where the pause button of a device is, in device coordinates: the configured
/// screenshot point scaled by the device's geometry.
pub fn pause_button_device(g: &Geometry, pause_button_screenshot: (u32, u32)) -> (r: (i32, i32))
    ensures
        r == (
            scale_coord(pause_button_screenshot.0, g.device.0, g.screenshot.0),
            scale_coord(pause_button_screenshot.1, g.device.1, g.screenshot.1),
        ),
{
    g.point_to_device(pause_button_screenshot.0, pause_button_screenshot.1, CoordSpace::Screenshot)
}

/// A frame's digest: `frame_digest` of its pixel bytes.
pub fn digest(frame: &BgrFrame) -> (r: u64)
    ensures
        r == frame_hash(frame.data@),
{
    frame_digest(frame.data.as_slice())
}

/// Whether two frames taken a pause gap apart show a paused battle: their digests
/// agree.
pub fn frames_match(first: &BgrFrame, second: &BgrFrame) -> (r: bool)
    ensures
        r == (frame_hash(first.data@) == frame_hash(second.data@)),
{
    digest(first) == digest(second)
}

/// A raw frame as PNG bytes, at its own size: the frame's PNG encoding, kept only when
/// the `image` crate can read its size back.
pub fn png_of(frame: &BgrFrame) -> (r: Result<Vec<u8>, Error>)
    requires
        frame.width * frame.height * 4 <= u32::MAX,
        frame.data@.len() / 3 <= frame.width * frame.height,
    ensures
        (frame.width * frame.height == frame.data@.len() / 3) || (r matches Err(Error::Image(m))
            && m@ == frame_size_text(frame.width, frame.height, frame.data@.len())),
        r matches Ok(b) ==> b@ == png_rgba(frame.width, frame.height, bgr_to_rgba_spec(frame.data@))
            && image_dims(b@) is Some,
        r is Ok <==> (frame.width * frame.height == frame.data@.len() / 3 && frame.width > 0
            && frame.height > 0 && image_dims(
            png_rgba(frame.width, frame.height, bgr_to_rgba_spec(frame.data@)),
        ) is Some),
        r is Err ==> r matches Err(Error::Image(_)),
{
    let f = Frame { width: frame.width, height: frame.height, bgr: frame.data.clone() };
    proof {
        assert(f.bgr@ == frame.data@);
    }
    match f.to_png() {
        Ok(png) => match png_dimensions(png.as_slice()) {
            Ok(_) => Ok(png),
            Err(e) => Err(e),
        },
        Err(e) => Err(e),
    }
}

// ---------------------------------------------------------------------------
// Single steps.

/// How a single step ended.
pub enum StepOutcome {
    Done(String),
    Rejected(String),
    Timeout,
}

/// The text describing a step's outcome.
pub open spec fn outcome_text(o: StepOutcome) -> Seq<char> {
    match o {
        StepOutcome::Done(s) => "done ("@ + s@ + ")"@,
        StepOutcome::Rejected(e) => "rejected: "@ + e@,
        StepOutcome::Timeout => "timeout"@,
    }
}

impl StepOutcome {
    /// "done (reason)", "rejected: error" or "timeout".
    pub fn describe(&self) -> (r: String)
        ensures
            r@ == outcome_text(*self),
    {
        match self {
            StepOutcome::Done(s) => {
                let mut m = String::from_str("done (");
                m.append(s.as_str());
                push_str(&mut m, ")");
                m
            },
            StepOutcome::Rejected(e) => {
                let mut m = String::from_str("rejected: ");
                m.append(e.as_str());
                m
            },
            StepOutcome::Timeout => String::from_str("timeout"),
        }
    }

    pub fn is_done(&self) -> (r: bool)
        ensures
            r == (*self is Done),
    {
        match self {
            StepOutcome::Done(_) => true,
            _ => false,
        }
    }
}

/// `s` with every leading "task_" removed.
pub open spec fn strip_task_prefix(s: Seq<char>) -> Seq<char>
    decreases s.len(),
{
    if s.len() >= 5 && s.take(5) == "task_"@ {
        strip_task_prefix(s.skip(5))
    } else {
        s
    }
}

/// The outcome of a step from how the wait on its task ended: completed is done, any
/// other terminal state a rejection naming it, no firing a timeout, and a failed wait
/// a rejection carrying its error.
pub fn step_outcome(wait: Result<(bool, String), String>) -> (r: StepOutcome)
    ensures
        match wait {
            Err(e) => r matches StepOutcome::Rejected(m) && m@ == e@,
            Ok((triggered, reason)) => if triggered && reason@ == "task_completed"@ {
                r matches StepOutcome::Done(m) && m@ == reason@
            } else if triggered {
                r matches StepOutcome::Rejected(m) && m@ == "step ended in state "@
                    + strip_task_prefix(reason@)
            } else {
                r is Timeout
            },
        },
{
    match wait {
        Err(e) => StepOutcome::Rejected(e),
        Ok((triggered, reason)) => {
            if triggered && str_eq(reason.as_str(), "task_completed") {
                StepOutcome::Done(reason)
            } else if triggered {
                let chars = crate::text::str_chars(reason.as_str());
                let n = chars.len();
                let mut i: usize = 0;
                proof {
                    reveal_strlit("task_");
                    assert("task_"@ =~= seq!['t', 'a', 's', 'k', '_']);
                    assert(chars@.skip(0) =~= reason@);
                }
                while i < n && n - i >= 5 && chars[i] == 't' && chars[i + 1] == 'a' && chars[i + 2] == 's'
                    && chars[i + 3] == 'k' && chars[i + 4] == '_'
                    invariant
                        "task_"@ == seq!['t', 'a', 's', 'k', '_'],
                        n == chars@.len(),
                        chars@ == reason@,
                        i <= n,
                        strip_task_prefix(reason@) == strip_task_prefix(chars@.skip(i as int)),
                    decreases n - i,
                {
                    proof {
                        let t = chars@.skip(i as int);
                        assert(t.take(5) =~= "task_"@);
                        assert(t.skip(5) =~= chars@.skip(i + 5));
                    }
                    i = i + 5;
                }
                proof {
                    let t = chars@.skip(i as int);
                    if t.len() >= 5 && t.take(5) == "task_"@ {
                        assert(t.take(5)[0] == 't');
                        assert(t.take(5)[1] == 'a');
                        assert(t.take(5)[2] == 's');
                        assert(t.take(5)[3] == 'k');
                        assert(t.take(5)[4] == '_');
                    }
                }
                let mut rest: Vec<char> = Vec::new();
                let start = i;
                while i < n
                    invariant
                        n == chars@.len(),
                        start <= i <= n,
                        rest@ == chars@.subrange(start as int, i as int),
                    decreases n - i,
                {
                    rest.push(chars[i]);
                    i = i + 1;
                }
                proof {
                    assert(rest@ =~= chars@.skip(start as int));
                }
                let mut m = String::from_str("step ended in state ");
                let tail = crate::text::string_from_chars(&rest);
                m.append(tail.as_str());
                StepOutcome::Rejected(m)
            } else {
                StepOutcome::Timeout
            }
        },
    }
}

// ---------------------------------------------------------------------------
// Starting a battle paused.

/// The timings of `start_paused`, in milliseconds.
pub struct StartPausedOptions {
    pub stage: String,
    pub poll_ms: u64,
    pub timeout_ms: u64,
    pub pause_gap_ms: u64,
    pub settle_ms: u64,
}

impl StartPausedOptions {
    /// Options for `stage` with the given timeout: a 200 ms poll, the standard pause gap
    /// and a one-second settle.
    pub fn new(stage: String, timeout_ms: u64) -> (r: StartPausedOptions)
        ensures
            r.stage@ == stage@,
            r.poll_ms == 200,
            r.timeout_ms == timeout_ms,
            r.pause_gap_ms == PAUSE_GAP_MS,
            r.settle_ms == 1000,
    {
        StartPausedOptions {
            stage,
            poll_ms: 200,
            timeout_ms,
            pause_gap_ms: PAUSE_GAP_MS,
            settle_ms: 1000,
        }
    }
}

/// The step at which starting paused gave up.
#[derive(Clone, Copy, PartialEq, Eq, Structural)]
pub enum FailedAt {
    Stage,
    Start,
    WaitForBattle,
    Pause,
}

impl FailedAt {
    /// The step's name.
    pub open spec fn name_text(self) -> Seq<char> {
        match self {
            FailedAt::Stage => "stage"@,
            FailedAt::Start => "start"@,
            FailedAt::WaitForBattle => "wait-for-battle"@,
            FailedAt::Pause => "pause"@,
        }
    }

    /// "stage", "start", "wait-for-battle" or "pause".
    pub fn name(&self) -> (r: &'static str)
        ensures
            r@ == self.name_text(),
    {
        match self {
            FailedAt::Stage => "stage",
            FailedAt::Start => "start",
            FailedAt::WaitForBattle => "wait-for-battle",
            FailedAt::Pause => "pause",
        }
    }
}

/// What showed that the battlefield had rendered.
#[derive(Clone, Copy, PartialEq, Eq, Structural)]
pub enum FiredOn {
    Hud,
    StartStep,
}

impl FiredOn {
    /// What fired, by name.
    pub open spec fn name_text(self) -> Seq<char> {
        match self {
            FiredOn::Hud => "hud"@,
            FiredOn::StartStep => "start_step"@,
        }
    }

    /// "hud" or "start_step".
    pub fn name(&self) -> (r: &'static str)
        ensures
            r@ == self.name_text(),
    {
        match self {
            FiredOn::Hud => "hud",
            FiredOn::StartStep => "start_step",
        }
    }
}

/// What `start_paused` reports.
pub struct StartPausedReport {
    pub ok: bool,
    pub stage: String,
    pub failed_at: Option<FailedAt>,
    pub detail: Option<String>,
    pub fired_on: Option<FiredOn>,
    pub pause_attempts: u32,
    pub paused: bool,
    pub hud_detected: Option<bool>,
    pub start_task_state: Option<String>,
    pub waited_ms: u64,
    pub frame_png: Option<Vec<u8>>,
}

/// Which frame, if any, goes with the finished report.
#[derive(Clone, Copy, PartialEq, Eq, Structural)]
pub enum FrameSource {
    NoFrame,
    LastProbe,
    Fresh,
}

/// What the driver of `start_paused` does next.
pub enum SpAction {
    /// Run the "stage" step for this stage (30 s) and report its outcome.
    RunStage { stage: String },
    /// Capture a frame and report its digest.
    CaptureBaseline,
    /// Queue and start the "start" step; report its task id (or the error's text) and
    /// whether the device has a HUD template.
    StartBattle,
    /// Capture a frame, match the HUD template and read the start task's state.
    Probe,
    /// Sleep this long, then report the elapsed time.
    Sleep { ms: u64 },
    /// Click the pause button, then read the start task's state.
    ClickPause,
    /// Wait at most `ms` for the task to finish, then read its state.
    WaitStart { task_id: i32, ms: u64 },
    /// Read the start task's state, then sleep `ms`.
    ReadStateAndSettle { ms: u64 },
    /// Compare two frames `gap_ms` apart.
    CheckPaused { gap_ms: u64 },
    /// Attach the frame named (a PNG of the last probed frame or a fresh one), stamp the
    /// elapsed time again when `restamp`, and return the report.
    Finish { frame: FrameSource, restamp: bool },
}

/// What the driver reports back.
pub enum SpEvent {
    StepDone { outcome: StepOutcome, elapsed_ms: u64 },
    Baseline { digest: u64 },
    Started { task: Result<i32, String>, has_template: bool, elapsed_ms: u64 },
    Probed { digest: u64, hud: Option<bool>, state: Option<String>, elapsed_ms: u64 },
    Slept { elapsed_ms: u64 },
    Clicked { state: Option<String>, elapsed_ms: u64 },
    Waited { timed_out: bool, state: Option<String>, elapsed_ms: u64 },
    Settled { state: Option<String> },
    Paused { paused: bool },
}

/// Where `start_paused` is.
#[derive(Clone, Copy, PartialEq, Eq, Structural)]
pub enum SpPhase {
    Stage,
    Baseline,
    Start,
    Polling,
    PollSleep,
    Click1,
    Waiting,
    Settle1,
    Check1,
    Click2,
    Settle2,
    Check2,
    Done,
}

/// `start_paused` as a machine: set the stage, note a baseline frame, start the
/// battle, poll until the battlefield shows (the HUD template matches, or the start
/// step ends with a changed frame), click pause, and confirm the pause, clicking once
/// more if the screen still moves.
pub struct StartPaused {
    pub opts: StartPausedOptions,
    pub phase: SpPhase,
    pub report: StartPausedReport,
    pub before: u64,
    pub start_id: i32,
    pub has_template: bool,
    /// How long the pending wait on the start task may take.
    pub wait_ms: u64,
    /// The finishing action, once the run is done.
    pub finish_frame: FrameSource,
    pub finish_restamp: bool,
}

/// The state's invariant: at most two pause clicks; clicks only after the battlefield
/// showed; a finished run is ok exactly when it ended paused, and it names a failed
/// step exactly when it is not ok.
pub open spec fn sp_inv(s: StartPaused) -> bool {
    &&& s.report.pause_attempts <= 2
    &&& s.report.pause_attempts > 0 ==> s.report.fired_on is Some
    &&& (s.phase == SpPhase::Stage || s.phase == SpPhase::Baseline || s.phase == SpPhase::Start
        || s.phase == SpPhase::Polling || s.phase == SpPhase::PollSleep)
        ==> s.report.pause_attempts == 0
    &&& s.phase == SpPhase::Click1 ==> s.report.fired_on is Some && s.report.pause_attempts == 0
    &&& (s.phase == SpPhase::Waiting || s.phase == SpPhase::Settle1 || s.phase == SpPhase::Check1
        || s.phase == SpPhase::Click2) ==> s.report.fired_on is Some && s.report.pause_attempts == 1
    &&& (s.phase == SpPhase::Settle2 || s.phase == SpPhase::Check2) ==> s.report.fired_on is Some
        && s.report.pause_attempts == 2
    &&& s.phase != SpPhase::Done ==> !s.report.ok && s.report.failed_at is None
        && !s.report.paused
    &&& s.phase == SpPhase::Done ==> (s.report.ok == s.report.paused) && (s.report.ok
        <==> s.report.failed_at is None)
    &&& s.phase == SpPhase::Done && s.report.ok ==> s.report.pause_attempts >= 1
}

/// The detail of a run that ended paused.
pub open spec fn paused_detail(fired_on: Option<FiredOn>, has_template: bool, attempts: u32) -> Seq<
    char,
> {
    (if fired_on == Some(FiredOn::Hud) {
        "paused on HUD template match"@
    } else if has_template {
        "paused on start-step completion; HUD template never matched (check hud_template/hud_roi)"@
    } else {
        "paused on start-step completion with a changed frame"@
    }) + if attempts == 2 {
        "; second click needed"@
    } else {
        Seq::empty()
    }
}

/// The detail of a run whose screen never stopped moving.
pub open spec fn still_running_text() -> Seq<char> {
    "screen kept changing after two pause clicks; the battle is still running"@
}

/// Whether an action finishes the run with this frame and restamp flag.
pub open spec fn finishes(r: SpAction, frame: FrameSource, restamp: bool) -> bool {
    match r {
        SpAction::Finish { frame: f, restamp: t } => f == frame && t == restamp,
        _ => false,
    }
}

/// The run stopped at `at` after `elapsed_ms`, finishing with `frame`: the phase, the
/// failed step, the detail (stated apart, by its view), the time and the finishing action
/// change; everything else is as before.
pub open spec fn failed_with(
    old: StartPaused,
    new: StartPaused,
    at: FailedAt,
    elapsed_ms: u64,
    frame: FrameSource,
) -> bool {
    new == StartPaused {
        phase: SpPhase::Done,
        report: StartPausedReport {
            ok: false,
            paused: false,
            failed_at: Some(at),
            detail: new.report.detail,
            waited_ms: elapsed_ms,
            ..old.report
        },
        finish_frame: frame,
        finish_restamp: false,
        ..old
    }
}

/// Only the phase changes.
pub open spec fn moved_to(old: StartPaused, new: StartPaused, phase: SpPhase) -> bool {
    new == StartPaused { phase, ..old }
}

/// The run concluded after checking the pause: it is ok exactly when the screen
/// stopped; the detail (stated apart, by its view) and the failed step change, and the
/// finishing action takes a fresh frame and restamps; everything else is as before.
pub open spec fn concluded(old: StartPaused, new: StartPaused, paused: bool) -> bool {
    new == StartPaused {
        phase: SpPhase::Done,
        report: StartPausedReport {
            ok: paused,
            paused: paused,
            failed_at: if paused {
                old.report.failed_at
            } else {
                Some(FailedAt::Pause)
            },
            detail: new.report.detail,
            ..old.report
        },
        finish_frame: FrameSource::Fresh,
        finish_restamp: true,
        ..old
    }
}

/// What one step of the machine does, for each step and the event that step waits on.
/// Each step changes only what it names; any field it does not name keeps its value.
pub open spec fn sp_post(old: StartPaused, ev: SpEvent, new: StartPaused, r: SpAction) -> bool {
    match (old.phase, ev) {
        (SpPhase::Stage, SpEvent::StepDone { outcome, elapsed_ms }) => if outcome is Done {
            moved_to(old, new, SpPhase::Baseline) && r is CaptureBaseline
        } else {
            failed_with(old, new, FailedAt::Stage, elapsed_ms, FrameSource::NoFrame) && opt_view(
                new.report.detail,
            ) == Some(outcome_text(outcome)) && finishes(r, FrameSource::NoFrame, false)
        },
        (SpPhase::Baseline, SpEvent::Baseline { digest }) => new == StartPaused {
            before: digest,
            phase: SpPhase::Start,
            ..old
        } && r is StartBattle,
        (SpPhase::Start, SpEvent::Started { task, has_template, elapsed_ms }) => match task {
            Err(e) => failed_with(old, new, FailedAt::Start, elapsed_ms, FrameSource::NoFrame)
                && opt_view(new.report.detail) == Some(e@) && finishes(r, FrameSource::NoFrame, false),
            Ok(id) => {
                let mid = StartPaused { start_id: id, has_template, ..old };
                if elapsed_ms < old.opts.timeout_ms {
                    moved_to(mid, new, SpPhase::Polling) && r is Probe
                } else {
                    failed_with(mid, new, FailedAt::WaitForBattle, elapsed_ms, FrameSource::NoFrame)
                        && opt_view(new.report.detail) == Some("battlefield never rendered"@)
                        && finishes(r, FrameSource::NoFrame, false)
                }
            },
        },
        (SpPhase::Polling, SpEvent::Probed { digest, hud, state, elapsed_ms }) => {
            let seen = StartPaused {
                report: StartPausedReport { hud_detected: hud, start_task_state: state, ..old.report },
                ..old
            };
            if hud == Some(true) {
                new == StartPaused {
                    phase: SpPhase::Click1,
                    report: StartPausedReport { fired_on: Some(FiredOn::Hud), ..seen.report },
                    ..seen
                } && r is ClickPause
            } else if terminal_text(opt_view(state)) && digest != old.before {
                new == StartPaused {
                    phase: SpPhase::Click1,
                    report: StartPausedReport { fired_on: Some(FiredOn::StartStep), ..seen.report },
                    ..seen
                } && r is ClickPause
            } else {
                moved_to(seen, new, SpPhase::PollSleep) && r == (SpAction::Sleep {
                    ms: old.opts.poll_ms,
                })
            }
        },
        (SpPhase::PollSleep, SpEvent::Slept { elapsed_ms }) => if elapsed_ms < old.opts.timeout_ms {
            moved_to(old, new, SpPhase::Polling) && r is Probe
        } else {
            failed_with(old, new, FailedAt::WaitForBattle, elapsed_ms, FrameSource::LastProbe)
                && opt_view(new.report.detail) == Some("battlefield never rendered"@) && finishes(
                r,
                FrameSource::LastProbe,
                false,
            )
        },
        (SpPhase::Click1, SpEvent::Clicked { state, elapsed_ms }) => {
            let clicked = StartPaused {
                report: StartPausedReport { pause_attempts: 1, ..old.report },
                ..old
            };
            if !terminal_text(opt_view(state)) && elapsed_ms < old.opts.timeout_ms {
                new == StartPaused {
                    phase: SpPhase::Waiting,
                    wait_ms: (old.opts.timeout_ms - elapsed_ms) as u64,
                    ..clicked
                } && r == (SpAction::WaitStart {
                    task_id: old.start_id,
                    ms: (old.opts.timeout_ms - elapsed_ms) as u64,
                })
            } else {
                moved_to(clicked, new, SpPhase::Settle1) && r == (SpAction::ReadStateAndSettle {
                    ms: old.opts.settle_ms,
                })
            }
        },
        (SpPhase::Waiting, SpEvent::Waited { timed_out, state, elapsed_ms }) => {
            let read = StartPaused {
                report: StartPausedReport { start_task_state: state, ..old.report },
                ..old
            };
            if timed_out {
                failed_with(read, new, FailedAt::Start, elapsed_ms, FrameSource::Fresh) && opt_view(
                    new.report.detail,
                ) == Some("start step did not finish before the timeout"@) && finishes(
                    r,
                    FrameSource::Fresh,
                    false,
                )
            } else {
                moved_to(read, new, SpPhase::Settle1) && r == (SpAction::ReadStateAndSettle {
                    ms: old.opts.settle_ms,
                })
            }
        },
        (SpPhase::Settle1, SpEvent::Settled { state }) => new == StartPaused {
            phase: SpPhase::Check1,
            report: StartPausedReport { start_task_state: state, ..old.report },
            ..old
        } && r == (SpAction::CheckPaused { gap_ms: old.opts.pause_gap_ms }),
        (SpPhase::Check1, SpEvent::Paused { paused }) => if paused {
            concluded(old, new, true) && opt_view(new.report.detail) == Some(
                paused_detail(old.report.fired_on, old.has_template, 1),
            ) && finishes(r, FrameSource::Fresh, true)
        } else {
            moved_to(old, new, SpPhase::Click2) && r is ClickPause
        },
        (SpPhase::Click2, SpEvent::Clicked { .. }) => new == StartPaused {
            phase: SpPhase::Settle2,
            report: StartPausedReport { pause_attempts: 2, ..old.report },
            ..old
        } && r == (SpAction::Sleep { ms: old.opts.settle_ms }),
        (SpPhase::Settle2, SpEvent::Slept { .. }) => moved_to(old, new, SpPhase::Check2) && r == (
        SpAction::CheckPaused { gap_ms: old.opts.pause_gap_ms }),
        (SpPhase::Check2, SpEvent::Paused { paused }) => concluded(old, new, paused) && if paused {
            opt_view(new.report.detail) == Some(
                paused_detail(old.report.fired_on, old.has_template, 2),
            ) && finishes(r, FrameSource::Fresh, true)
        } else {
            opt_view(new.report.detail) == Some(still_running_text()) && finishes(
                r,
                FrameSource::Fresh,
                true,
            )
        },
        _ => new == old,
    }
}

/// Whether `ev` is what the step in `phase` waits on.
pub open spec fn sp_fits(phase: SpPhase, ev: SpEvent) -> bool {
    match (phase, ev) {
        (SpPhase::Stage, SpEvent::StepDone { .. }) => true,
        (SpPhase::Baseline, SpEvent::Baseline { .. }) => true,
        (SpPhase::Start, SpEvent::Started { .. }) => true,
        (SpPhase::Polling, SpEvent::Probed { .. }) => true,
        (SpPhase::PollSleep, SpEvent::Slept { .. }) => true,
        (SpPhase::Click1, SpEvent::Clicked { .. }) => true,
        (SpPhase::Waiting, SpEvent::Waited { .. }) => true,
        (SpPhase::Settle1, SpEvent::Settled { .. }) => true,
        (SpPhase::Check1, SpEvent::Paused { .. }) => true,
        (SpPhase::Click2, SpEvent::Clicked { .. }) => true,
        (SpPhase::Settle2, SpEvent::Slept { .. }) => true,
        (SpPhase::Check2, SpEvent::Paused { .. }) => true,
        _ => false,
    }
}

/// How many of the actions click the pause button.
pub open spec fn pause_clicks(actions: Seq<SpAction>) -> nat
    decreases actions.len(),
{
    if actions.len() == 0 {
        0
    } else {
        pause_clicks(actions.drop_last()) + if actions.last() is ClickPause {
            1nat
        } else {
            0nat
        }
    }
}

/// A run of the machine: the states it passed through, the events reported to it and
/// the actions it asked for (the first action before any event), each state after the
/// first what `step` made of the one before and the event reported, with the action
/// that step asked for.
pub open spec fn sp_run(states: Seq<StartPaused>, events: Seq<SpEvent>, actions: Seq<SpAction>) -> bool {
    &&& states.len() == events.len() + 1
    &&& actions.len() == states.len()
    &&& forall|i: int|
        #![trigger events[i]]
        0 <= i < events.len() ==> sp_post(states[i], events[i], states[i + 1], actions[i + 1])
}

/// A click asked for and not yet made.
spec fn pending_click(s: StartPaused) -> nat {
    if s.phase == SpPhase::Click1 || s.phase == SpPhase::Click2 {
        1
    } else {
        0
    }
}

#[verifier::rlimit(50)]
proof fn lemma_sp_step(old: StartPaused, ev: SpEvent, new: StartPaused, r: SpAction)
    requires
        sp_inv(old),
        old.phase != SpPhase::Done,
        sp_fits(old.phase, ev),
        sp_post(old, ev, new, r),
    ensures
        sp_inv(new),
        new.opts == old.opts,
        new.report.stage == old.report.stage,
        new.report.pause_attempts + pending_click(new) == old.report.pause_attempts
            + pending_click(old) + if r is ClickPause {
            1nat
        } else {
            0nat
        },
{
}

proof fn lemma_sp_prefix(states: Seq<StartPaused>, events: Seq<SpEvent>, actions: Seq<SpAction>, k: int)
    requires
        sp_run(states, events, actions),
        sp_inv(states[0]),
        states[0].phase == SpPhase::Stage,
        actions[0] is RunStage,
        forall|i: int|
            0 <= i < events.len() ==> (#[trigger] states[i]).phase != SpPhase::Done && sp_fits(
                states[i].phase,
                events[i],
            ),
        0 <= k <= events.len(),
    ensures
        sp_inv(states[k]),
        states[k].opts == states[0].opts,
        states[k].report.stage == states[0].report.stage,
        pause_clicks(actions.take(k + 1)) == states[k].report.pause_attempts + pending_click(
            states[k],
        ),
    decreases k,
{
    if k == 0 {
        assert(actions.take(1).drop_last() =~= Seq::<SpAction>::empty());
        assert(actions.take(1).last() == actions[0]);
        assert(pause_clicks(Seq::<SpAction>::empty()) == 0);
        assert(pause_clicks(actions.take(1)) == 0);
    } else {
        lemma_sp_prefix(states, events, actions, k - 1);
        let _ = events[k - 1];
        assert(states[k - 1].phase != SpPhase::Done);
        lemma_sp_step(states[k - 1], events[k - 1], states[k], actions[k]);
        assert(actions.take(k + 1).drop_last() =~= actions.take(k));
        assert(actions.take(k + 1).last() == actions[k]);
        assert(pause_clicks(actions.take(k + 1)) == pause_clicks(actions.take(k)) + if actions[k] is ClickPause {
            1nat
        } else {
            0nat
        });
    }
}

/// A run from a fresh start (a state in the first step, as `new` makes it, whose first
/// action sets the stage), fed the events its actions ask for until it finishes, keeps
/// its promises: the stage and options stay; a finished run is ok exactly when it ended
/// paused; an ok run names no failed step and clicked pause once or twice; a run that
/// is not ok names the step that failed; and the run asked for as many pause clicks as
/// its report counts.
pub proof fn start_paused_runs_keep_their_promises(
    states: Seq<StartPaused>,
    events: Seq<SpEvent>,
    actions: Seq<SpAction>,
)
    requires
        sp_run(states, events, actions),
        sp_inv(states[0]),
        states[0].phase == SpPhase::Stage,
        actions[0] is RunStage,
        forall|i: int|
            0 <= i < events.len() ==> (#[trigger] states[i]).phase != SpPhase::Done && sp_fits(
                states[i].phase,
                events[i],
            ),
    ensures
        states.last().opts == states[0].opts,
        states.last().report.stage == states[0].report.stage,
        states.last().phase == SpPhase::Done ==> {
            let rep = states.last().report;
            &&& rep.ok == rep.paused
            &&& rep.ok ==> rep.failed_at is None && 1 <= rep.pause_attempts <= 2
            &&& !rep.ok ==> rep.failed_at is Some
            &&& pause_clicks(actions) == rep.pause_attempts
        },
{
    let n = events.len() as int;
    lemma_sp_prefix(states, events, actions, n);
    assert(actions.take(n + 1) =~= actions);
}

impl StartPaused {
    /// A fresh run; the first action is setting the stage.
    pub fn new(opts: StartPausedOptions) -> (r: (StartPaused, SpAction))
        ensures
            sp_inv(r.0),
            r.0 == (StartPaused {
                opts,
                phase: SpPhase::Stage,
                report: StartPausedReport {
                    ok: false,
                    stage: r.0.report.stage,
                    failed_at: None,
                    detail: None,
                    fired_on: None,
                    pause_attempts: 0,
                    paused: false,
                    hud_detected: None,
                    start_task_state: None,
                    waited_ms: 0,
                    frame_png: None,
                },
                before: 0,
                start_id: 0,
                has_template: false,
                wait_ms: 0,
                finish_frame: FrameSource::NoFrame,
                finish_restamp: false,
            }),
            r.0.report.stage@ == opts.stage@,
            r.1 matches SpAction::RunStage { stage } && stage@ == opts.stage@,
    {
        let stage = opts.stage.clone();
        let report = StartPausedReport {
            ok: false,
            stage: opts.stage.clone(),
            failed_at: None,
            detail: None,
            fired_on: None,
            pause_attempts: 0,
            paused: false,
            hud_detected: None,
            start_task_state: None,
            waited_ms: 0,
            frame_png: None,
        };
        (
            StartPaused {
                opts,
                phase: SpPhase::Stage,
                report,
                before: 0,
                start_id: 0,
                has_template: false,
                wait_ms: 0,
                finish_frame: FrameSource::NoFrame,
                finish_restamp: false,
            },
            SpAction::RunStage { stage },
        )
    }

    fn fail(&mut self, at: FailedAt, detail: String, elapsed_ms: u64, frame: FrameSource) -> (r: SpAction)
        requires
            old(self).report.pause_attempts <= 2,
            old(self).report.pause_attempts > 0 ==> old(self).report.fired_on is Some,
        ensures
            sp_inv(*final(self)),
            failed_with(*old(self), *final(self), at, elapsed_ms, frame),
            final(self).report.detail == Some(detail),
            r matches SpAction::Finish { frame: f, restamp } && f == frame && !restamp,
    {
        self.report.failed_at = Some(at);
        self.report.detail = Some(detail);
        self.report.waited_ms = elapsed_ms;
        self.report.ok = false;
        self.report.paused = false;
        self.phase = SpPhase::Done;
        self.finish_frame = frame;
        self.finish_restamp = false;
        SpAction::Finish { frame, restamp: false }
    }

    fn conclude(&mut self, paused: bool) -> (r: SpAction)
        requires
            old(self).report.fired_on is Some,
            1 <= old(self).report.pause_attempts <= 2,
            old(self).report.failed_at is None,
        ensures
            sp_inv(*final(self)),
            concluded(*old(self), *final(self), paused),
            paused ==> opt_view(final(self).report.detail) == Some(
                paused_detail(
                    old(self).report.fired_on,
                    old(self).has_template,
                    old(self).report.pause_attempts,
                ),
            ),
            !paused ==> opt_view(final(self).report.detail) == Some(still_running_text()),
            r matches SpAction::Finish { frame: f, restamp } && f == FrameSource::Fresh && restamp,
    {
        self.report.paused = paused;
        self.report.ok = paused;
        if paused {
            let mut d = match self.report.fired_on {
                Some(FiredOn::Hud) => String::from_str("paused on HUD template match"),
                _ => if self.has_template {
                    String::from_str(
                        "paused on start-step completion; HUD template never matched (check hud_template/hud_roi)",
                    )
                } else {
                    String::from_str("paused on start-step completion with a changed frame")
                },
            };
            if self.report.pause_attempts == 2 {
                push_str(&mut d, "; second click needed");
            }
            proof {
                if self.report.pause_attempts != 2 {
                    assert(d@ =~= d@ + Seq::<char>::empty());
                }
            }
            self.report.detail = Some(d);
        } else {
            self.report.failed_at = Some(FailedAt::Pause);
            self.report.detail = Some(
                String::from_str(
                    "screen kept changing after two pause clicks; the battle is still running",
                ),
            );
        }
        self.phase = SpPhase::Done;
        self.finish_frame = FrameSource::Fresh;
        self.finish_restamp = true;
        SpAction::Finish { frame: FrameSource::Fresh, restamp: true }
    }

    /// Folds in what the driver reports and says what to do next. An event that does
    /// not fit the current step changes nothing and asks for that step again.
    pub fn step(&mut self, ev: SpEvent) -> (r: SpAction)
        requires
            sp_inv(*old(self)),
        ensures
            sp_inv(*final(self)),
            final(self).opts == old(self).opts,
            final(self).report.stage == old(self).report.stage,
            old(self).phase == SpPhase::Done ==> final(self).phase == SpPhase::Done
                && final(self).report.ok == old(self).report.ok
                && final(self).report.failed_at == old(self).report.failed_at
                && final(self).report.pause_attempts == old(self).report.pause_attempts,
            sp_post(*old(self), ev, *final(self), r),
    {
        match (self.phase, ev) {
            (SpPhase::Stage, SpEvent::StepDone { outcome, elapsed_ms }) => {
                if outcome.is_done() {
                    self.phase = SpPhase::Baseline;
                    SpAction::CaptureBaseline
                } else {
                    let d = outcome.describe();
                    self.fail(FailedAt::Stage, d, elapsed_ms, FrameSource::NoFrame)
                }
            },
            (SpPhase::Baseline, SpEvent::Baseline { digest }) => {
                self.before = digest;
                self.phase = SpPhase::Start;
                SpAction::StartBattle
            },
            (SpPhase::Start, SpEvent::Started { task, has_template, elapsed_ms }) => match task {
                Err(e) => self.fail(FailedAt::Start, e, elapsed_ms, FrameSource::NoFrame),
                Ok(id) => {
                    self.start_id = id;
                    self.has_template = has_template;
                    if elapsed_ms < self.opts.timeout_ms {
                        self.phase = SpPhase::Polling;
                        SpAction::Probe
                    } else {
                        self.fail(
                            FailedAt::WaitForBattle,
                            String::from_str("battlefield never rendered"),
                            elapsed_ms,
                            FrameSource::NoFrame,
                        )
                    }
                },
            },
            (SpPhase::Polling, SpEvent::Probed { digest, hud, state, elapsed_ms }) => {
                self.report.hud_detected = hud;
                let terminal = match &state {
                    Some(s) => is_terminal(Some(s.as_str())),
                    None => is_terminal(None),
                };
                self.report.start_task_state = state;
                if hud == Some(true) {
                    self.report.fired_on = Some(FiredOn::Hud);
                    self.phase = SpPhase::Click1;
                    SpAction::ClickPause
                } else if terminal && digest != self.before {
                    self.report.fired_on = Some(FiredOn::StartStep);
                    self.phase = SpPhase::Click1;
                    SpAction::ClickPause
                } else {
                    self.phase = SpPhase::PollSleep;
                    SpAction::Sleep { ms: self.opts.poll_ms }
                }
            },
            (SpPhase::PollSleep, SpEvent::Slept { elapsed_ms }) => {
                if elapsed_ms < self.opts.timeout_ms {
                    self.phase = SpPhase::Polling;
                    SpAction::Probe
                } else {
                    self.fail(
                        FailedAt::WaitForBattle,
                        String::from_str("battlefield never rendered"),
                        elapsed_ms,
                        FrameSource::LastProbe,
                    )
                }
            },
            (SpPhase::Click1, SpEvent::Clicked { state, elapsed_ms }) => {
                self.report.pause_attempts = 1;
                let terminal = match &state {
                    Some(s) => is_terminal(Some(s.as_str())),
                    None => is_terminal(None),
                };
                if !terminal && elapsed_ms < self.opts.timeout_ms {
                    self.phase = SpPhase::Waiting;
                    self.wait_ms = self.opts.timeout_ms - elapsed_ms;
                    SpAction::WaitStart { task_id: self.start_id, ms: self.wait_ms }
                } else {
                    self.phase = SpPhase::Settle1;
                    SpAction::ReadStateAndSettle { ms: self.opts.settle_ms }
                }
            },
            (SpPhase::Waiting, SpEvent::Waited { timed_out, state, elapsed_ms }) => {
                self.report.start_task_state = state;
                if timed_out {
                    self.fail(
                        FailedAt::Start,
                        String::from_str("start step did not finish before the timeout"),
                        elapsed_ms,
                        FrameSource::Fresh,
                    )
                } else {
                    self.phase = SpPhase::Settle1;
                    SpAction::ReadStateAndSettle { ms: self.opts.settle_ms }
                }
            },
            (SpPhase::Settle1, SpEvent::Settled { state }) => {
                self.report.start_task_state = state;
                self.phase = SpPhase::Check1;
                SpAction::CheckPaused { gap_ms: self.opts.pause_gap_ms }
            },
            (SpPhase::Check1, SpEvent::Paused { paused }) => {
                if paused {
                    self.conclude(true)
                } else {
                    self.phase = SpPhase::Click2;
                    SpAction::ClickPause
                }
            },
            (SpPhase::Click2, SpEvent::Clicked { .. }) => {
                self.report.pause_attempts = 2;
                self.phase = SpPhase::Settle2;
                SpAction::Sleep { ms: self.opts.settle_ms }
            },
            (SpPhase::Settle2, SpEvent::Slept { .. }) => {
                self.phase = SpPhase::Check2;
                SpAction::CheckPaused { gap_ms: self.opts.pause_gap_ms }
            },
            (SpPhase::Check2, SpEvent::Paused { paused }) => self.conclude(paused),
            _ => self.pending(),
        }
    }

    /// The action the current step is waiting on.
    pub fn pending(&self) -> (r: SpAction)
        ensures
            self.phase == SpPhase::Done ==> r is Finish,
    {
        match self.phase {
            SpPhase::Stage => SpAction::RunStage { stage: self.opts.stage.clone() },
            SpPhase::Baseline => SpAction::CaptureBaseline,
            SpPhase::Start => SpAction::StartBattle,
            SpPhase::Polling => SpAction::Probe,
            SpPhase::PollSleep => SpAction::Sleep { ms: self.opts.poll_ms },
            SpPhase::Click1 => SpAction::ClickPause,
            SpPhase::Waiting => SpAction::WaitStart { task_id: self.start_id, ms: self.wait_ms },
            SpPhase::Settle1 => SpAction::ReadStateAndSettle { ms: self.opts.settle_ms },
            SpPhase::Check1 => SpAction::CheckPaused { gap_ms: self.opts.pause_gap_ms },
            SpPhase::Click2 => SpAction::ClickPause,
            SpPhase::Settle2 => SpAction::Sleep { ms: self.opts.settle_ms },
            SpPhase::Check2 => SpAction::CheckPaused { gap_ms: self.opts.pause_gap_ms },
            SpPhase::Done => SpAction::Finish {
                frame: self.finish_frame,
                restamp: self.finish_restamp,
            },
        }
    }
}

// ---------------------------------------------------------------------------
// Deploying a batch of operators.

/// The facings a deployment accepts, in English and Chinese.
pub open spec fn valid_direction(d: Seq<char>) -> bool {
    d == "Left"@ || d == "Right"@ || d == "Up"@ || d == "Down"@ || d == "None"@ || d == "\u{5de6}"@
        || d == "\u{53f3}"@ || d == "\u{4e0a}"@ || d == "\u{4e0b}"@ || d == "\u{65e0}"@
}

/// Whether `d` is a facing a deployment accepts.
pub fn is_valid_direction(d: &str) -> (r: bool)
    ensures
        r == valid_direction(d@),
{
    str_eq(d, "Left") || str_eq(d, "Right") || str_eq(d, "Up") || str_eq(d, "Down") || str_eq(
        d,
        "None",
    ) || str_eq(d, "\u{5de6}") || str_eq(d, "\u{53f3}") || str_eq(d, "\u{4e0a}") || str_eq(
        d,
        "\u{4e0b}",
    ) || str_eq(d, "\u{65e0}")
}

/// One deployment of a batch: who, where, facing which way, and optionally a skill
/// usage mode to set afterwards.
pub struct DeployStep {
    pub name: String,
    pub location: [i32; 2],
    pub direction: String,
    pub skill_usage: Option<i32>,
}

/// The facing used when a step gives none.
pub fn default_direction() -> (r: String)
    ensures
        r@ == "Right"@,
{
    String::from_str("Right")
}

/// The list of accepted facings as written in error messages.
pub open spec fn directions_list_text() -> Seq<char> {
    "[\"Left\", \"Right\", \"Up\", \"Down\", \"None\", \"\u{5de6}\", \"\u{53f3}\", \"\u{4e0a}\", \"\u{4e0b}\", \"\u{65e0}\"]"@
}

/// The message for a step with a facing that is not accepted.
pub open spec fn bad_direction_text(i: nat, name: Seq<char>, direction: Seq<char>) -> Seq<char> {
    "deploy plan step "@ + nat_text(i) + " ("@ + debug_text(name) + ") has invalid direction "@
        + debug_text(direction) + "; expected one of "@ + directions_list_text()
}

/// Checks every step's facing before anything is deployed; the error names the first
/// step whose facing is not accepted.
pub fn validate_plan(plan: &Vec<DeployStep>) -> (r: Result<(), Error>)
    ensures
        r is Ok <==> forall|i: int| 0 <= i < plan@.len() ==> valid_direction(#[trigger] plan@[i].direction@),
        r matches Err(e) ==> exists|i: int|
            0 <= i < plan@.len() && !valid_direction(#[trigger] plan@[i].direction@) && (forall|
                j: int,
            | 0 <= j < i ==> valid_direction(plan@[j].direction@)) && (e matches Error::Validation(m)
                && m@ == bad_direction_text(i as nat, plan@[i].name@, plan@[i].direction@)),
{
    let mut i: usize = 0;
    while i < plan.len()
        invariant
            i <= plan@.len(),
            forall|j: int| 0 <= j < i ==> valid_direction(#[trigger] plan@[j].direction@),
        decreases plan.len() - i,
    {
        if !is_valid_direction(plan[i].direction.as_str()) {
            let mut m = String::from_str("deploy plan step ");
            write_u64(&mut m, i as u64);
            push_str(&mut m, " (");
            let n = debug_str(plan[i].name.as_str());
            m.append(n.as_str());
            push_str(&mut m, ") has invalid direction ");
            let d = debug_str(plan[i].direction.as_str());
            m.append(d.as_str());
            push_str(&mut m, "; expected one of ");
            push_str(
                &mut m,
                "[\"Left\", \"Right\", \"Up\", \"Down\", \"None\", \"\u{5de6}\", \"\u{53f3}\", \"\u{4e0a}\", \"\u{4e0b}\", \"\u{65e0}\"]",
            );
            return Err(Error::Validation(m));
        }
        i = i + 1;
    }
    Ok(())
}

/// A location as a JSON array.
pub open spec fn location_json(l: [i32; 2]) -> JsonV {
    JsonV::Array(seq![JsonV::Int(l[0] as int), JsonV::Int(l[1] as int)])
}

fn location_exec(l: [i32; 2]) -> (r: Json)
    ensures
        r@ == location_json(l),
{
    let mut v: Vec<Json> = Vec::new();
    v.push(Json::Int(l[0] as i64));
    v.push(Json::Int(l[1] as i64));
    let r = Json::array(v);
    proof {
        assert(json_items(v@) =~= seq![JsonV::Int(l@[0] as int), JsonV::Int(l@[1] as int)]);
    }
    r
}

/// The details of a deployment action.
pub open spec fn deploy_details_json(step: DeployStep) -> JsonV {
    JsonV::Object(
        seq![
            ("type"@, JsonV::Str("Deploy"@)),
            ("name"@, JsonV::Str(step.name@)),
            ("location"@, location_json(step.location)),
            ("direction"@, JsonV::Str(step.direction@)),
        ],
    )
}

/// The details of the deployment action for a step.
pub fn deploy_details(step: &DeployStep) -> (r: Json)
    ensures
        r@ == deploy_details_json(*step),
{
    let mut f: Vec<(String, Json)> = Vec::new();
    f.push(field("type", Json::new_str("Deploy")));
    f.push(field("name", Json::Str(step.name.clone())));
    f.push(field("location", location_exec(step.location)));
    f.push(field("direction", Json::Str(step.direction.clone())));
    let r = Json::object(f);
    proof {
        assert(fields_view(f@) =~= seq![
            ("type"@, JsonV::Str("Deploy"@)),
            ("name"@, JsonV::Str(step.name@)),
            ("location"@, location_json(step.location)),
            ("direction"@, JsonV::Str(step.direction@)),
        ]);
    }
    r
}

/// The details of the skill-usage action for a step that sets one.
pub open spec fn skill_details_json(step: DeployStep) -> Option<JsonV> {
    match step.skill_usage {
        Some(u) => Some(
            JsonV::Object(
                seq![
                    ("type"@, JsonV::Str("SkillUsage"@)),
                    ("name"@, JsonV::Str(step.name@)),
                    ("skill_usage"@, JsonV::Int(u as int)),
                ],
            ),
        ),
        None => None,
    }
}

/// The skill-usage action for a step, when it sets one.
pub fn skill_details(step: &DeployStep) -> (r: Option<Json>)
    ensures
        match r {
            Some(j) => skill_details_json(*step) == Some(j@),
            None => skill_details_json(*step) is None,
        },
{
    match step.skill_usage {
        Some(u) => {
            let mut f: Vec<(String, Json)> = Vec::new();
            f.push(field("type", Json::new_str("SkillUsage")));
            f.push(field("name", Json::Str(step.name.clone())));
            f.push(field("skill_usage", Json::Int(u as i64)));
            let r = Json::object(f);
            proof {
                assert(fields_view(f@) =~= seq![
                    ("type"@, JsonV::Str("SkillUsage"@)),
                    ("name"@, JsonV::Str(step.name@)),
                    ("skill_usage"@, JsonV::Int(u as int)),
                ]);
            }
            Some(r)
        },
        None => None,
    }
}

/// The error recorded for a step: nothing when it was done, else its outcome's text.
pub fn step_error(o: &StepOutcome) -> (r: Option<String>)
    ensures
        match r {
            None => *o is Done,
            Some(m) => !(*o is Done) && m@ == outcome_text(*o),
        },
{
    match o {
        StepOutcome::Done(_) => None,
        other => Some(other.describe()),
    }
}

/// What one deployment did.
pub struct DeployResult {
    pub name: String,
    pub location: [i32; 2],
    pub direction: String,
    pub error: Option<String>,
    pub skill_error: Option<String>,
    pub frame_changed: bool,
    pub elapsed_ms: u64,
}

/// The error text of a step's outcome, if it failed.
pub open spec fn outcome_error(o: StepOutcome) -> Option<Seq<char>> {
    if o is Done {
        None
    } else {
        Some(outcome_text(o))
    }
}

/// What a deployment's result says: the step's name, location and direction, the
/// errors of the deployment and of its skill setting, whether the frame after it
/// differs from the one before (by digest), and the time taken.
pub open spec fn deploy_result_is(
    r: DeployResult,
    step: DeployStep,
    outcome: StepOutcome,
    skill_outcome: Option<StepOutcome>,
    before: u64,
    after: u64,
    elapsed_ms: u64,
) -> bool {
    &&& r.name@ == step.name@
    &&& r.location == step.location
    &&& r.direction@ == step.direction@
    &&& opt_view(r.error) == outcome_error(outcome)
    &&& opt_view(r.skill_error) == match skill_outcome {
        Some(o) => outcome_error(o),
        None => None,
    }
    &&& r.frame_changed == (before != after)
    &&& r.elapsed_ms == elapsed_ms
}

/// The result of a deployment: its errors, and whether the frame after it differs from
/// the one before.
pub fn deploy_result(
    step: DeployStep,
    outcome: &StepOutcome,
    skill_outcome: Option<&StepOutcome>,
    before: u64,
    after: u64,
    elapsed_ms: u64,
) -> (r: DeployResult)
    ensures
        deploy_result_is(
            r,
            step,
            *outcome,
            match skill_outcome {
                Some(o) => Some(*o),
                None => None,
            },
            before,
            after,
            elapsed_ms,
        ),
{
    let error = step_error(outcome);
    let skill_error = match skill_outcome {
        Some(o) => step_error(o),
        None => None,
    };
    DeployResult {
        name: step.name,
        location: step.location,
        direction: step.direction,
        error,
        skill_error,
        frame_changed: before != after,
        elapsed_ms,
    }
}

/// What the driver saw of one deployment: the outcomes of the deployment and of its
/// skill setting (when the step sets one), the digests of the frames before and after
/// it, and the time it took.
pub struct DeployObservation {
    pub outcome: StepOutcome,
    pub skill_outcome: Option<StepOutcome>,
    pub before: u64,
    pub after: u64,
    pub elapsed_ms: u64,
}

/// The results of a batch of deployments, one per step and in the plan's order, each
/// from what was seen of that step: a step keeps its place whether it failed or not,
/// and a step's frame changed exactly when its digests differ.
pub fn deploy_results(plan: Vec<DeployStep>, seen: Vec<DeployObservation>) -> (r: Vec<DeployResult>)
    requires
        plan@.len() == seen@.len(),
    ensures
        r@.len() == plan@.len(),
        forall|i: int|
            0 <= i < plan@.len() ==> deploy_result_is(
                #[trigger] r@[i],
                plan@[i],
                seen@[i].outcome,
                seen@[i].skill_outcome,
                seen@[i].before,
                seen@[i].after,
                seen@[i].elapsed_ms,
            ),
{
    let ghost plan0 = plan@;
    let mut rest = plan;
    let mut out: Vec<DeployResult> = Vec::new();
    let mut i: usize = 0;
    while i < seen.len()
        invariant
            plan0.len() == seen@.len(),
            i <= seen@.len(),
            out@.len() == i,
            rest@ == plan0.skip(i as int),
            forall|k: int|
                0 <= k < i ==> deploy_result_is(
                    #[trigger] out@[k],
                    plan0[k],
                    seen@[k].outcome,
                    seen@[k].skill_outcome,
                    seen@[k].before,
                    seen@[k].after,
                    seen@[k].elapsed_ms,
                ),
        decreases seen.len() - i,
    {
        let step = rest.remove(0);
        proof {
            assert(step == plan0[i as int]);
            assert(rest@ =~= plan0.skip(i + 1));
        }
        let o = &seen[i];
        let skill = match &o.skill_outcome {
            Some(s) => Some(s),
            None => None,
        };
        let r = deploy_result(step, &o.outcome, skill, o.before, o.after, o.elapsed_ms);
        out.push(r);
        i = i + 1;
    }
    out
}

// ---------------------------------------------------------------------------
// Resuming until the screen settles, and pausing.

/// What to do after a frame while resuming.
#[derive(Clone, Copy, PartialEq, Eq, Structural)]
pub enum ResumeDecision {
    /// The last frames were identical long enough: the battle has settled.
    Settled,
    /// Time is up: pause again.
    PauseNow,
    /// Sleep one poll and capture again.
    KeepPolling,
}

/// The frames seen while resuming: how many, the last digest (0 before any), and for
/// how many frames in a row it has not changed.
pub struct ResumeWatch {
    pub stable_frames: u32,
    pub seen: u64,
    pub same: u32,
    pub frames: u32,
}

impl ResumeWatch {
    /// A watch that settles after `stable_frames` unchanged frames.
    pub fn new(stable_frames: u32) -> (r: ResumeWatch)
        ensures
            r.stable_frames == stable_frames,
            r.seen == 0,
            r.same == 0,
            r.frames == 0,
    {
        ResumeWatch { stable_frames, seen: 0, same: 0, frames: 0 }
    }

    /// Notes a frame captured `elapsed_ms` after the resume began, of a budget of
    /// `limit_ms`, polling every `poll_ms`.
    pub fn observe(&mut self, digest: u64, elapsed_ms: u64, poll_ms: u64, limit_ms: u64) -> (r:
        ResumeDecision)
        requires
            old(self).frames < u32::MAX,
            old(self).same <= old(self).frames,
        ensures
            final(self).frames == old(self).frames + 1,
            final(self).same == if digest == old(self).seen {
                old(self).same + 1
            } else {
                0
            },
            final(self).same <= final(self).frames,
            final(self).seen == digest,
            final(self).stable_frames == old(self).stable_frames,
            r == if final(self).same >= old(self).stable_frames {
                ResumeDecision::Settled
            } else if elapsed_ms + poll_ms >= limit_ms {
                ResumeDecision::PauseNow
            } else {
                ResumeDecision::KeepPolling
            },
    {
        self.frames = self.frames + 1;
        self.same = if digest == self.seen {
            self.same + 1
        } else {
            0
        };
        self.seen = digest;
        if self.same >= self.stable_frames {
            ResumeDecision::Settled
        } else if (elapsed_ms as u128) + (poll_ms as u128) >= (limit_ms as u128) {
            ResumeDecision::PauseNow
        } else {
            ResumeDecision::KeepPolling
        }
    }
}

/// What resuming reports.
pub struct ResumeReport {
    pub reason: String,
    pub elapsed_ms: u64,
    pub frames_observed: u32,
    pub frame_png: Vec<u8>,
}

/// The reason a resume ended: "settled" when the screen settled, "timeout_paused"
/// when time ran out and the battle was paused again.
pub fn resume_reason(settled: bool) -> (r: String)
    ensures
        r@ == if settled {
            "settled"@
        } else {
            "timeout_paused"@
        },
{
    if settled {
        String::from_str("settled")
    } else {
        String::from_str("timeout_paused")
    }
}

/// What pausing reports: whether the screen stopped, and a PNG of it.
pub struct PauseReport {
    pub paused: bool,
    pub frame_png: Vec<u8>,
}

} // verus!
