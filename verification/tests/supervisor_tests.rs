use vodlib::supervisor::{
    comments_attempt_follow_up, has_transient_failure, line_has_live_signature,
    line_has_title_warning, line_has_upcoming_signature, meta_step, should_retry_warning,
    AttemptFollowUp, AttemptReport, MetaPhase, StageOutcome,
};

fn report() -> AttemptReport {
    AttemptReport {
        spawned: true,
        success: true,
        timed_out: false,
        warning_seen: false,
        live_seen: false,
        upcoming_seen: false,
        cancelled: false,
        info_live: Some(false),
    }
}

// =========================================================
// detectors
// =========================================================

#[test]
fn warning_detector_fires_on_signature() {
    assert!(line_has_title_warning(
        "WARNING: No title found in player responses; falling back to title from initial data"
    ));
    assert!(!line_has_title_warning("[download] 12% of 3MB"));
}

#[test]
fn upcoming_detector_fires_on_phrase() {
    assert!(line_has_upcoming_signature("ERROR: This live event will begin in 2 hours"));
    assert!(!line_has_upcoming_signature("normal output"));
}

#[test]
fn live_detector_fires_on_signatures() {
    assert!(line_has_live_signature("got manifest live/1 here", true, true));
    assert!(line_has_live_signature("tag live_broadcast seen", true, true));
    assert!(line_has_live_signature("url /live_0001.ts", true, true));
    assert!(line_has_live_signature("hls playlist_type/DVR", true, true));
    assert!(line_has_live_signature("frame=  100 fps=30", true, true));
    assert!(!line_has_live_signature("frame=  100 fps=30", false, true));
    assert!(line_has_live_signature("Output #0, mpegts, to 'pipe:'", true, true));
    assert!(!line_has_live_signature("Output #0, mpegts, to 'pipe:'", true, false));
    assert!(!line_has_live_signature("[download] plain progress", true, true));
}

#[test]
fn transient_detector_needs_both_markers() {
    assert!(has_transient_failure("", "AttributeError: NoneType cannot decode"));
    assert!(has_transient_failure("NoneType", "failed to decode stream"));
    assert!(!has_transient_failure("NoneType only", ""));
    assert!(!has_transient_failure("", "decode only"));
}

// =========================================================
// retry budgets
// =========================================================

#[test]
fn warning_always_firing_uses_exactly_max_attempts() {
    let max_attempts: u32 = 10;
    let mut attempts: u32 = 0;
    let mut attempt: u32 = 1;
    loop {
        attempts += 1;
        // The detector fires on every attempt and nobody cancels.
        if should_retry_warning(max_attempts, attempt, true, false) {
            attempt += 1;
        } else {
            break;
        }
    }
    assert_eq!(attempts, max_attempts);
}

#[test]
fn warning_retry_respects_cancellation() {
    assert!(!should_retry_warning(10, 1, true, true));
    assert!(!should_retry_warning(10, 10, true, false));
    assert!(should_retry_warning(10, 9, true, false));
}

#[test]
fn comments_follow_up_order() {
    assert_eq!(
        comments_attempt_follow_up(10, 2, 1, false, true, "", ""),
        AttemptFollowUp::RetryWarning
    );
    assert_eq!(
        comments_attempt_follow_up(10, 2, 1, false, false, "NoneType", "cannot decode"),
        AttemptFollowUp::RetryTransient
    );
    assert_eq!(
        comments_attempt_follow_up(10, 2, 2, false, false, "NoneType", "cannot decode"),
        AttemptFollowUp::Conclude
    );
    assert_eq!(
        comments_attempt_follow_up(10, 2, 1, true, false, "NoneType", "cannot decode"),
        AttemptFollowUp::Conclude
    );
}

// =========================================================
// the two-stage metadata flow
// =========================================================

#[test]
fn live_in_stage_one_skips_stage_two() {
    let r = AttemptReport { live_seen: true, ..report() };
    let next = meta_step(MetaPhase::StageOne { attempt: 1 }, 10, &r);
    assert_eq!(next, MetaPhase::Finished { status: StageOutcome::LiveDetected });
    // Whatever reports come later, the flow never reaches stage two.
    let after = meta_step(next, 10, &report());
    assert_eq!(after, MetaPhase::Finished { status: StageOutcome::LiveDetected });
}

#[test]
fn live_record_skips_stage_two() {
    let r = AttemptReport { info_live: Some(true), ..report() };
    let next = meta_step(MetaPhase::StageOne { attempt: 1 }, 10, &r);
    assert_eq!(next, MetaPhase::Finished { status: StageOutcome::LiveDetected });
}

#[test]
fn normal_stage_one_admits_stage_two() {
    let next = meta_step(MetaPhase::StageOne { attempt: 1 }, 10, &report());
    assert_eq!(next, MetaPhase::StageTwo);
    let done = meta_step(next, 10, &report());
    assert_eq!(done, MetaPhase::Finished { status: StageOutcome::Normal });
}

#[test]
fn live_during_stage_two_still_concludes_live() {
    let r = AttemptReport { live_seen: true, ..report() };
    let done = meta_step(MetaPhase::StageTwo, 10, &r);
    assert_eq!(done, MetaPhase::Finished { status: StageOutcome::LiveDetected });
}

#[test]
fn upcoming_event_concludes_without_stage_two() {
    let r = AttemptReport { upcoming_seen: true, success: false, ..report() };
    let next = meta_step(MetaPhase::StageOne { attempt: 3 }, 10, &r);
    assert_eq!(next, MetaPhase::Finished { status: StageOutcome::UpcomingDetected });
}

#[test]
fn warning_in_stage_one_retries_within_budget() {
    let r = AttemptReport { success: false, warning_seen: true, ..report() };
    let next = meta_step(MetaPhase::StageOne { attempt: 1 }, 10, &r);
    assert_eq!(next, MetaPhase::StageOne { attempt: 2 });
    let last = meta_step(MetaPhase::StageOne { attempt: 10 }, 10, &r);
    assert_eq!(last, MetaPhase::Finished { status: StageOutcome::Failed });
}

#[test]
fn timeout_concludes_timed_out() {
    let r = AttemptReport { success: false, timed_out: true, ..report() };
    let next = meta_step(MetaPhase::StageOne { attempt: 1 }, 10, &r);
    assert_eq!(next, MetaPhase::Finished { status: StageOutcome::TimedOut });
}

#[test]
fn spawn_failure_is_terminal() {
    let r = AttemptReport { spawned: false, ..report() };
    let next = meta_step(MetaPhase::StageOne { attempt: 1 }, 10, &r);
    assert_eq!(next, MetaPhase::Finished { status: StageOutcome::Failed });
}

#[test]
fn cancelled_attempt_concludes_cancelled() {
    let r = AttemptReport { success: false, cancelled: true, info_live: None, ..report() };
    let next = meta_step(MetaPhase::StageOne { attempt: 1 }, 10, &r);
    assert_eq!(next, MetaPhase::Finished { status: StageOutcome::Cancelled });
}
