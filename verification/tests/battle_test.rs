use arkd_core::battle::{
    default_direction, deploy_result, deploy_results, digest, DeployObservation, frames_match, is_terminal, is_valid_direction,
    pause_button_device, png_of, resume_reason, step_outcome, validate_plan, DeployStep,
    FailedAt, FiredOn, FrameSource, ResumeDecision, ResumeWatch, SpAction, SpEvent, StartPaused,
    StartPausedOptions, StepOutcome, PAUSE_GAP_MS,
};
use arkd_core::error::Error;
use arkd_core::screen::Geometry;
use arkd_core::session::BgrFrame;

fn opts(stage: &str, timeout_ms: u64) -> StartPausedOptions {
    StartPausedOptions::new(stage.to_string(), timeout_ms)
}

fn done() -> StepOutcome {
    StepOutcome::Done("task_completed".to_string())
}

fn is_probe(a: &SpAction) -> bool {
    matches!(a, SpAction::Probe)
}

#[test]
fn options_carry_the_documented_timings() {
    let o = opts("LS-1", 5000);
    assert_eq!(o.stage, "LS-1");
    assert_eq!((o.poll_ms, o.timeout_ms, o.pause_gap_ms, o.settle_ms), (200, 5000, 1200, 1000));
    assert_eq!(PAUSE_GAP_MS, 1200);
}

#[test]
fn the_pause_button_maps_to_the_device() {
    let g = Geometry { device: (1920, 1080), screenshot: (1280, 720) };
    assert_eq!(pause_button_device(&g, (1210, 55)), (1815, 82));
}

#[test]
fn start_paused_happy_path_without_template() {
    let (mut m, first) = StartPaused::new(opts("LS-1", 5000));
    assert!(matches!(first, SpAction::RunStage { ref stage } if stage == "LS-1"));
    let a = m.step(SpEvent::StepDone { outcome: done(), elapsed_ms: 10 });
    assert!(matches!(a, SpAction::CaptureBaseline));
    let a = m.step(SpEvent::Baseline { digest: 1 });
    assert!(matches!(a, SpAction::StartBattle));
    let a = m.step(SpEvent::Started { task: Ok(7), has_template: false, elapsed_ms: 20 });
    assert!(is_probe(&a));
    // The formation screen, still the baseline frame, with the start step running.
    let a = m.step(SpEvent::Probed { digest: 1, hud: None, state: Some("running".to_string()), elapsed_ms: 40 });
    assert!(matches!(a, SpAction::Sleep { ms: 200 }));
    let a = m.step(SpEvent::Slept { elapsed_ms: 240 });
    assert!(is_probe(&a));
    // The battlefield: a new frame, and the start step completed.
    let a = m.step(SpEvent::Probed { digest: 2, hud: None, state: Some("completed".to_string()), elapsed_ms: 260 });
    assert!(matches!(a, SpAction::ClickPause));
    let a = m.step(SpEvent::Clicked { state: Some("completed".to_string()), elapsed_ms: 300 });
    assert!(matches!(a, SpAction::ReadStateAndSettle { ms: 1000 }));
    let a = m.step(SpEvent::Settled { state: Some("completed".to_string()) });
    assert!(matches!(a, SpAction::CheckPaused { gap_ms: 1200 }));
    let a = m.step(SpEvent::Paused { paused: true });
    assert!(matches!(a, SpAction::Finish { frame: FrameSource::Fresh, restamp: true }));
    let r = &m.report;
    assert!(r.ok);
    assert!(r.paused);
    assert_eq!(r.hud_detected, None);
    assert_eq!(r.start_task_state.as_deref(), Some("completed"));
    assert!(r.detail.as_deref().unwrap_or_default().contains("start-step"), "{:?}", r.detail);
    assert_eq!(r.pause_attempts, 1);
    assert!(matches!(r.fired_on, Some(FiredOn::StartStep)));
}

#[test]
fn start_paused_with_template_fires_before_task_completes() {
    let (mut m, _) = StartPaused::new(opts("LS-1", 8000));
    m.step(SpEvent::StepDone { outcome: done(), elapsed_ms: 10 });
    m.step(SpEvent::Baseline { digest: 1 });
    m.step(SpEvent::Started { task: Ok(7), has_template: true, elapsed_ms: 20 });
    let a = m.step(SpEvent::Probed { digest: 77, hud: Some(true), state: Some("running".to_string()), elapsed_ms: 60 });
    assert!(matches!(a, SpAction::ClickPause));
    // The start step is still running: wait for it with what is left of the budget.
    let a = m.step(SpEvent::Clicked { state: Some("running".to_string()), elapsed_ms: 100 });
    assert!(matches!(a, SpAction::WaitStart { task_id: 7, ms: 7900 }));
    let a = m.step(SpEvent::Waited { timed_out: false, state: Some("completed".to_string()), elapsed_ms: 900 });
    assert!(matches!(a, SpAction::ReadStateAndSettle { .. }));
    m.step(SpEvent::Settled { state: Some("completed".to_string()) });
    m.step(SpEvent::Paused { paused: true });
    let r = &m.report;
    assert!(r.ok);
    assert_eq!(r.hud_detected, Some(true));
    assert!(r.detail.as_deref().unwrap_or_default().contains("HUD"), "{:?}", r.detail);
    assert_eq!(r.pause_attempts, 1);
}

#[test]
fn start_paused_reports_stage_rejection() {
    let (mut m, _) = StartPaused::new(opts("LS-1", 2000));
    let a = m.step(SpEvent::StepDone {
        outcome: StepOutcome::Rejected("MaaCore refused".to_string()),
        elapsed_ms: 5,
    });
    assert!(matches!(a, SpAction::Finish { frame: FrameSource::NoFrame, restamp: false }));
    assert!(!m.report.ok);
    assert_eq!(m.report.failed_at.map(|f| f.name()), Some("stage"));
    assert_eq!(m.report.detail.as_deref(), Some("rejected: MaaCore refused"));
    assert_eq!(m.report.pause_attempts, 0);
    assert!(!m.report.paused);
}

#[test]
fn start_paused_times_out_when_battlefield_never_renders() {
    let (mut m, _) = StartPaused::new(opts("LS-1", 600));
    m.step(SpEvent::StepDone { outcome: done(), elapsed_ms: 10 });
    m.step(SpEvent::Baseline { digest: 5 });
    m.step(SpEvent::Started { task: Ok(3), has_template: false, elapsed_ms: 20 });
    let mut elapsed = 20;
    loop {
        let a = m.step(SpEvent::Probed { digest: 5, hud: None, state: Some("completed".to_string()), elapsed_ms: elapsed });
        assert!(matches!(a, SpAction::Sleep { ms: 200 }));
        elapsed += 200;
        let a = m.step(SpEvent::Slept { elapsed_ms: elapsed });
        if let SpAction::Finish { frame, .. } = a {
            assert!(matches!(frame, FrameSource::LastProbe));
            break;
        }
        assert!(is_probe(&a));
    }
    assert!(!m.report.ok);
    assert!(matches!(m.report.failed_at, Some(FailedAt::WaitForBattle)));
    assert_eq!(m.report.pause_attempts, 0);
    assert_eq!(m.report.detail.as_deref(), Some("battlefield never rendered"));
}

#[test]
fn start_paused_retries_the_pause_click_once() {
    let (mut m, _) = StartPaused::new(opts("LS-1", 5000));
    m.step(SpEvent::StepDone { outcome: done(), elapsed_ms: 10 });
    m.step(SpEvent::Baseline { digest: 1 });
    m.step(SpEvent::Started { task: Ok(7), has_template: false, elapsed_ms: 20 });
    m.step(SpEvent::Probed { digest: 2, hud: None, state: Some("completed".to_string()), elapsed_ms: 60 });
    m.step(SpEvent::Clicked { state: Some("completed".to_string()), elapsed_ms: 100 });
    m.step(SpEvent::Settled { state: Some("completed".to_string()) });
    let a = m.step(SpEvent::Paused { paused: false });
    assert!(matches!(a, SpAction::ClickPause));
    let a = m.step(SpEvent::Clicked { state: Some("completed".to_string()), elapsed_ms: 2500 });
    assert!(matches!(a, SpAction::Sleep { ms: 1000 }));
    let a = m.step(SpEvent::Slept { elapsed_ms: 3500 });
    assert!(matches!(a, SpAction::CheckPaused { gap_ms: 1200 }));
    m.step(SpEvent::Paused { paused: true });
    assert!(m.report.ok);
    assert!(m.report.paused);
    assert_eq!(m.report.pause_attempts, 2);
    assert!(m.report.detail.as_deref().unwrap().ends_with("; second click needed"));
}

#[test]
fn a_screen_that_keeps_moving_is_reported() {
    let (mut m, _) = StartPaused::new(opts("LS-1", 5000));
    m.step(SpEvent::StepDone { outcome: done(), elapsed_ms: 10 });
    m.step(SpEvent::Baseline { digest: 1 });
    m.step(SpEvent::Started { task: Ok(7), has_template: false, elapsed_ms: 20 });
    m.step(SpEvent::Probed { digest: 2, hud: None, state: Some("completed".to_string()), elapsed_ms: 60 });
    m.step(SpEvent::Clicked { state: Some("completed".to_string()), elapsed_ms: 100 });
    m.step(SpEvent::Settled { state: Some("completed".to_string()) });
    m.step(SpEvent::Paused { paused: false });
    m.step(SpEvent::Clicked { state: Some("completed".to_string()), elapsed_ms: 2500 });
    m.step(SpEvent::Slept { elapsed_ms: 3500 });
    m.step(SpEvent::Paused { paused: false });
    assert!(!m.report.ok);
    assert!(!m.report.paused);
    assert!(matches!(m.report.failed_at, Some(FailedAt::Pause)));
    assert_eq!(
        m.report.detail.as_deref(),
        Some("screen kept changing after two pause clicks; the battle is still running")
    );
}

#[test]
fn an_unexpected_event_changes_nothing() {
    let (mut m, _) = StartPaused::new(opts("LS-1", 5000));
    let a = m.step(SpEvent::Paused { paused: true });
    assert!(matches!(a, SpAction::RunStage { .. }));
    assert!(!m.report.ok);
}

#[test]
fn a_start_that_fails_to_queue_is_reported() {
    let (mut m, _) = StartPaused::new(opts("LS-1", 5000));
    m.step(SpEvent::StepDone { outcome: done(), elapsed_ms: 10 });
    m.step(SpEvent::Baseline { digest: 1 });
    let a = m.step(SpEvent::Started { task: Err("no connection".to_string()), has_template: false, elapsed_ms: 20 });
    assert!(matches!(a, SpAction::Finish { frame: FrameSource::NoFrame, .. }));
    assert!(matches!(m.report.failed_at, Some(FailedAt::Start)));
    assert_eq!(m.report.detail.as_deref(), Some("no connection"));
}

#[test]
fn step_outcomes_read_the_wait() {
    assert!(step_outcome(Ok((true, "task_completed".to_string()))).is_done());
    match step_outcome(Ok((true, "task_error".to_string()))) {
        StepOutcome::Rejected(m) => assert_eq!(m, "step ended in state error"),
        _ => panic!("expected a rejection"),
    }
    assert!(matches!(step_outcome(Ok((false, "timeout".to_string()))), StepOutcome::Timeout));
    assert_eq!(step_outcome(Err("busy".to_string())).describe(), "rejected: busy");
    assert_eq!(done().describe(), "done (task_completed)");
    assert_eq!(StepOutcome::Timeout.describe(), "timeout");
}

#[test]
fn terminal_states_are_completed_error_and_stopped() {
    assert!(is_terminal(Some("completed")));
    assert!(is_terminal(Some("error")));
    assert!(is_terminal(Some("stopped")));
    assert!(!is_terminal(Some("running")));
    assert!(!is_terminal(None));
}

#[test]
fn deploy_batch_rejects_bad_direction_before_touching_the_core() {
    let plan = vec![
        DeployStep { name: "Thorns".to_string(), location: [3, 4], direction: default_direction(), skill_usage: None },
        DeployStep { name: "Ptilopsis".to_string(), location: [5, 4], direction: "Sideways".to_string(), skill_usage: None },
    ];
    let err = validate_plan(&plan).unwrap_err();
    assert!(matches!(err, Error::Validation(_)));
    let msg = err.message();
    assert!(msg.starts_with("deploy plan step 1 (\"Ptilopsis\") has invalid direction \"Sideways\""), "{msg}");
    assert!(is_valid_direction("\u{5de6}"));
    assert!(validate_plan(&plan[..1].iter().map(|s| DeployStep {
        name: s.name.clone(),
        location: s.location,
        direction: s.direction.clone(),
        skill_usage: s.skill_usage,
    }).collect()).is_ok());
}

#[test]
fn deploy_batch_marks_a_step_whose_task_errored() {
    let step = DeployStep { name: "Thorns".to_string(), location: [3, 4], direction: "Left".to_string(), skill_usage: Some(1) };
    let r = deploy_result(step, &StepOutcome::Rejected("AsstAppendTask returned 0".to_string()), Some(&done()), 10, 10, 250);
    assert_eq!(r.error.as_deref(), Some("rejected: AsstAppendTask returned 0"));
    assert_eq!(r.skill_error, None);
    assert!(!r.frame_changed);
    assert_eq!(r.elapsed_ms, 250);
    let step = DeployStep { name: "Thorns".to_string(), location: [3, 4], direction: "Left".to_string(), skill_usage: None };
    let ok = deploy_result(step, &done(), None, 10, 11, 300);
    assert_eq!(ok.error, None);
    assert!(ok.frame_changed);
}

#[test]
fn resume_until_settles_on_stable_frames() {
    let mut w = ResumeWatch::new(3);
    assert!(w.observe(5, 100, 200, 10_000) == ResumeDecision::KeepPolling);
    assert!(w.observe(5, 300, 200, 10_000) == ResumeDecision::KeepPolling);
    assert!(w.observe(5, 500, 200, 10_000) == ResumeDecision::KeepPolling);
    assert!(w.observe(5, 700, 200, 10_000) == ResumeDecision::Settled);
    assert_eq!(resume_reason(true), "settled");
}

#[test]
fn resume_until_pauses_on_timeout() {
    let mut w = ResumeWatch::new(3);
    assert!(w.observe(1, 100, 200, 1000) == ResumeDecision::KeepPolling);
    assert!(w.observe(2, 500, 200, 1000) == ResumeDecision::KeepPolling);
    assert!(w.observe(3, 850, 200, 1000) == ResumeDecision::PauseNow);
    assert_eq!(resume_reason(false), "timeout_paused");
}

#[test]
fn is_paused_true_on_identical_frames_false_on_changing() {
    let a = BgrFrame { width: 2, height: 1, data: vec![1, 2, 3, 4, 5, 6] };
    let b = BgrFrame { width: 2, height: 1, data: vec![1, 2, 3, 4, 5, 6] };
    let c = BgrFrame { width: 2, height: 1, data: vec![9, 2, 3, 4, 5, 6] };
    assert!(frames_match(&a, &b));
    assert!(!frames_match(&a, &c));
    assert_eq!(digest(&a), digest(&b));
}

#[test]
fn a_frame_becomes_a_png_of_its_size() {
    let f = BgrFrame { width: 4, height: 2, data: vec![7; 24] };
    let png = png_of(&f).unwrap();
    assert_eq!(arkd_core::screen::png_dimensions(&png).unwrap(), (4, 2));
}

#[test]
fn the_machine_keeps_its_options_and_what_it_saw() {
    let (mut m, _) = StartPaused::new(opts("LS-1", 600));
    assert_eq!(m.opts.timeout_ms, 600);
    assert_eq!(m.opts.poll_ms, 200);
    m.step(SpEvent::StepDone { outcome: done(), elapsed_ms: 10 });
    m.step(SpEvent::Baseline { digest: 42 });
    m.step(SpEvent::Started { task: Ok(9), has_template: true, elapsed_ms: 20 });
    m.step(SpEvent::Probed { digest: 1, hud: Some(true), state: Some("running".to_string()), elapsed_ms: 30 });
    m.step(SpEvent::Clicked { state: Some("running".to_string()), elapsed_ms: 40 });
    assert_eq!(m.before, 42);
    assert_eq!(m.start_id, 9);
    assert!(m.has_template);
    assert_eq!(m.report.hud_detected, Some(true));
    assert_eq!(m.report.fired_on.map(|f| f.name()), Some("hud"));
    assert_eq!(m.report.pause_attempts, 1);
    assert_eq!(m.opts.timeout_ms, 600);
}

#[test]
fn a_run_asks_for_as_many_clicks_as_it_reports() {
    let (mut m, first) = StartPaused::new(opts("LS-1", 5000));
    let mut actions = vec![first];
    let events = vec![
        SpEvent::StepDone { outcome: done(), elapsed_ms: 10 },
        SpEvent::Baseline { digest: 1 },
        SpEvent::Started { task: Ok(7), has_template: false, elapsed_ms: 20 },
        SpEvent::Probed { digest: 2, hud: None, state: Some("completed".to_string()), elapsed_ms: 60 },
        SpEvent::Clicked { state: Some("completed".to_string()), elapsed_ms: 100 },
        SpEvent::Settled { state: Some("completed".to_string()) },
        SpEvent::Paused { paused: false },
        SpEvent::Clicked { state: Some("completed".to_string()), elapsed_ms: 2500 },
        SpEvent::Slept { elapsed_ms: 3500 },
        SpEvent::Paused { paused: true },
    ];
    for ev in events {
        actions.push(m.step(ev));
    }
    let clicks = actions.iter().filter(|a| matches!(a, SpAction::ClickPause)).count();
    assert!(matches!(actions.last(), Some(SpAction::Finish { .. })));
    assert_eq!(clicks as u32, m.report.pause_attempts);
    assert_eq!(clicks, 2);
    assert!(m.report.ok && m.report.paused && m.report.failed_at.is_none());
    assert_eq!(m.report.stage, "LS-1");
}

#[test]
fn deploy_batch_reports_frame_change_and_continues_after_rejection() {
    // The first step's deploy is refused; the batch continues. Frame digests before and
    // after: [A,B] changed, [C,C] unchanged, [D,E] changed.
    let plan = vec![
        DeployStep { name: "Amiya".into(), location: [4, 5], direction: "Right".into(), skill_usage: None },
        DeployStep { name: "Exusiai".into(), location: [6, 3], direction: "Left".into(), skill_usage: None },
        DeployStep { name: "Texas".into(), location: [2, 2], direction: "\u{4e0a}".into(), skill_usage: Some(2) },
    ];
    let (a, b, c, d, e) = (200u64, 1u64, 2u64, 3u64, 4u64);
    let seen = vec![
        DeployObservation {
            outcome: StepOutcome::Rejected("AsstAppendTask returned 0".to_string()),
            skill_outcome: None,
            before: a,
            after: b,
            elapsed_ms: 30,
        },
        DeployObservation { outcome: done(), skill_outcome: None, before: c, after: c, elapsed_ms: 20 },
        DeployObservation { outcome: done(), skill_outcome: Some(done()), before: d, after: e, elapsed_ms: 10 },
    ];
    let results = deploy_results(plan, seen);
    assert_eq!(results.len(), 3);
    assert!(results[0].error.is_some());
    assert!(results[0].frame_changed);
    assert!(results[1].error.is_none());
    assert!(!results[1].frame_changed);
    assert!(results[2].error.is_none());
    assert!(results[2].frame_changed);
    assert!(results[2].skill_error.is_none());
    assert_eq!(results.iter().map(|r| r.name.as_str()).collect::<Vec<_>>(), vec!["Amiya", "Exusiai", "Texas"]);
}
