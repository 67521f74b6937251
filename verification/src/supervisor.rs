use vstd::prelude::*;

use crate::text::{contains_seq, contains_str, starts_with_seq, starts_with_str};

verus! {

/// The benign diagnostic whose appearance asks for a plain retry.
pub open spec fn title_warning_text() -> Seq<char> {
    "No title found in player responses; falling back to title from initial data"@
}

/// The marker of the known transient decode failure.
pub open spec fn transient_error_text() -> Seq<char> {
    "NoneType"@
}

/// The phrase announcing a broadcast that has not started yet.
pub open spec fn upcoming_text() -> Seq<char> {
    "This live event will begin"@
}

/// A line fires the benign-warning detector.
pub fn line_has_title_warning(line: &str) -> (r: bool)
    ensures
        r == contains_seq(line@, title_warning_text()),
{
    contains_str(line, "No title found in player responses; falling back to title from initial data")
}

/// A line fires the upcoming-event detector.
pub fn line_has_upcoming_signature(line: &str) -> (r: bool)
    ensures
        r == contains_seq(line@, upcoming_text()),
{
    contains_str(line, "This live event will begin")
}

/// A line fires the live-stream detector: one of the streaming-container and
/// playlist signatures. The frame-counter and transport-stream markers are
/// only consulted where the caller's channel can carry them.
pub open spec fn spec_live_signature(line: Seq<char>, frames: bool, mpegts: bool) -> bool {
    ||| contains_seq(line, "live/1"@)
    ||| contains_seq(line, "live_broadcast"@)
    ||| contains_seq(line, "/live_"@)
    ||| contains_seq(line, "playlist_type/DVR"@)
    ||| (frames && starts_with_seq(line, "frame="@))
    ||| (mpegts && contains_seq(line, "Output #0, mpegts,"@))
}

/// Evaluates the live-stream detector on one output line.
pub fn line_has_live_signature(line: &str, frames: bool, mpegts: bool) -> (r: bool)
    ensures
        r == spec_live_signature(line@, frames, mpegts),
{
    contains_str(line, "live/1") || contains_str(line, "live_broadcast") || contains_str(
        line,
        "/live_",
    ) || contains_str(line, "playlist_type/DVR") || (frames && starts_with_str(line, "frame="))
        || (mpegts && contains_str(line, "Output #0, mpegts,"))
}

/// The transient decode failure shows in either accumulated stream.
pub open spec fn spec_transient_failure(stdout: Seq<char>, stderr: Seq<char>) -> bool {
    (contains_seq(stderr, transient_error_text()) || contains_seq(stdout, transient_error_text()))
        && (contains_seq(stderr, "decode"@) || contains_seq(stdout, "decode"@))
}

/// Evaluates the transient-failure detector on the accumulated output.
pub fn has_transient_failure(stdout: &str, stderr: &str) -> (r: bool)
    ensures
        r == spec_transient_failure(stdout@, stderr@),
{
    (contains_str(stderr, "NoneType") || contains_str(stdout, "NoneType")) && (contains_str(
        stderr,
        "decode",
    ) || contains_str(stdout, "decode"))
}

/// What one attempt asks for next.
#[derive(Clone, Copy, Debug, PartialEq, Eq, Structural)]
pub enum AttemptFollowUp {
    RetryWarning,
    RetryTransient,
    Conclude,
}

/// Whether the benign warning asks for one more attempt: only while the
/// attempt count is under the budget and nobody cancelled.
pub fn should_retry_warning(max_attempts: u32, attempt: u32, warning_seen: bool, cancelled: bool)
    -> (r: bool)
    ensures
        r == (warning_seen && !cancelled && attempt < max_attempts),
{
    warning_seen && !cancelled && attempt < max_attempts
}

/// What the comment-fetch loop does after one attempt: the benign warning
/// retries within its budget; otherwise a failed attempt showing the
/// transient decode signature retries within its own, longer-backoff budget;
/// otherwise the attempt concludes the loop.
pub fn comments_attempt_follow_up(
    warning_max: u32,
    transient_max: u32,
    attempt: u32,
    success: bool,
    warning_seen: bool,
    stdout: &str,
    stderr: &str,
) -> (r: AttemptFollowUp)
    ensures
        r == AttemptFollowUp::RetryWarning <==> (warning_seen && attempt < warning_max),
        r == AttemptFollowUp::RetryTransient <==> (!(warning_seen && attempt < warning_max)
            && !success && attempt < transient_max && spec_transient_failure(stdout@, stderr@)),
{
    if warning_seen && attempt < warning_max {
        AttemptFollowUp::RetryWarning
    } else if !success && attempt < transient_max && has_transient_failure(stdout, stderr) {
        AttemptFollowUp::RetryTransient
    } else {
        AttemptFollowUp::Conclude
    }
}

/// How many attempts a retry loop makes from attempt `a`, when attempt `t`
/// asks for a retry exactly where `retry(t)` holds and the budget allows at
/// most `max` attempts in all.
pub open spec fn attempts_from(retry: spec_fn(int) -> bool, max: int, a: int) -> int
    decreases max - a,
{
    if a < max && retry(a) {
        1 + attempts_from(retry, max, a + 1)
    } else {
        1
    }
}

/// How many attempts the loop makes in all.
pub open spec fn spec_attempts(retry: spec_fn(int) -> bool, max: int) -> int {
    attempts_from(retry, max, 1)
}

/// A retry loop never exceeds its budget, and a detector that always fires
/// uses the budget exactly: `max` attempts, never more.
pub proof fn lemma_warning_retry_budget(retry: spec_fn(int) -> bool, max: int)
    requires
        1 <= max,
    ensures
        1 <= spec_attempts(retry, max) <= max,
        (forall|a: int| #[trigger] retry(a)) ==> spec_attempts(retry, max) == max,
{
    lemma_attempts_from_bounds(retry, max, 1);
}

proof fn lemma_attempts_from_bounds(retry: spec_fn(int) -> bool, max: int, a: int)
    requires
        1 <= a <= max,
    ensures
        1 <= attempts_from(retry, max, a) <= max - a + 1,
        (forall|t: int| #[trigger] retry(t)) ==> attempts_from(retry, max, a) == max - a + 1,
    decreases max - a,
{
    if a < max && retry(a) {
        lemma_attempts_from_bounds(retry, max, a + 1);
    }
}

/// The terminal classification of one logical stage.
#[derive(Clone, Copy, Debug, PartialEq, Eq, Structural)]
pub enum StageOutcome {
    Normal,
    Failed,
    TimedOut,
    Cancelled,
    LiveDetected,
    UpcomingDetected,
}

/// What the driver observed over one attempt of the external tool.
#[derive(Clone, Copy, Debug, PartialEq, Eq, Structural)]
pub struct AttemptReport {
    /// The tool started at all; a spawn failure is immediately terminal.
    pub spawned: bool,
    /// The exit status, with the forced-success convention after a
    /// live-detection kill.
    pub success: bool,
    /// The attempt ran out of its wall-clock budget and was killed.
    pub timed_out: bool,
    /// The benign-warning detector fired on some line.
    pub warning_seen: bool,
    /// The live-stream detector fired on some line.
    pub live_seen: bool,
    /// The upcoming-event detector fired, on a line or in the final output.
    pub upcoming_seen: bool,
    /// The attempt was cancelled from outside.
    pub cancelled: bool,
    /// What the fetched record itself says of liveness: nothing when the
    /// record could not be read back.
    pub info_live: Option<bool>,
}

/// Where a two-stage metadata fetch stands.
#[derive(Clone, Copy, Debug, PartialEq, Eq, Structural)]
pub enum MetaPhase {
    StageOne { attempt: u32 },
    StageTwo,
    Finished { status: StageOutcome },
}

/// One step of the metadata flow: what the phase becomes once an attempt
/// reports.
///
/// Stage one classifies first: a spawn failure is terminal; an upcoming
/// event concludes without killing; a fired live detector concludes as
/// live-detected; a successful fetch is classified by the record it wrote,
/// live records concluding and normal ones admitting stage two; a fetch that
/// cannot be classified retries on the benign warning within the budget;
/// what is left is a timeout or a failure. Stage two runs at most once: a
/// fired live detector still concludes as live-detected, anything else
/// concludes normally. A finished flow stays finished.
pub open spec fn spec_meta_step(phase: MetaPhase, max_attempts: u32, r: AttemptReport) -> MetaPhase {
    match phase {
        MetaPhase::StageOne { attempt } => {
            if !r.spawned {
                MetaPhase::Finished { status: StageOutcome::Failed }
            } else if r.upcoming_seen {
                MetaPhase::Finished { status: StageOutcome::UpcomingDetected }
            } else if r.live_seen {
                MetaPhase::Finished { status: StageOutcome::LiveDetected }
            } else if r.success && !r.timed_out && r.info_live == Some(true) {
                MetaPhase::Finished { status: StageOutcome::LiveDetected }
            } else if r.success && !r.timed_out && r.info_live == Some(false) {
                MetaPhase::StageTwo
            } else if r.warning_seen && attempt < max_attempts {
                MetaPhase::StageOne { attempt: (attempt + 1) as u32 }
            } else if r.success && !r.timed_out {
                MetaPhase::StageTwo
            } else if r.timed_out {
                MetaPhase::Finished { status: StageOutcome::TimedOut }
            } else if r.cancelled {
                MetaPhase::Finished { status: StageOutcome::Cancelled }
            } else {
                MetaPhase::Finished { status: StageOutcome::Failed }
            }
        },
        MetaPhase::StageTwo => {
            if r.live_seen {
                MetaPhase::Finished { status: StageOutcome::LiveDetected }
            } else {
                MetaPhase::Finished { status: StageOutcome::Normal }
            }
        },
        MetaPhase::Finished { status } => MetaPhase::Finished { status },
    }
}

/// Advances the metadata flow by one attempt's report.
pub fn meta_step(phase: MetaPhase, max_attempts: u32, r: &AttemptReport) -> (next: MetaPhase)
    requires
        max_attempts <= 0xffff_ffff,
    ensures
        next == spec_meta_step(phase, max_attempts, *r),
{
    match phase {
        MetaPhase::StageOne { attempt } => {
            if !r.spawned {
                MetaPhase::Finished { status: StageOutcome::Failed }
            } else if r.upcoming_seen {
                MetaPhase::Finished { status: StageOutcome::UpcomingDetected }
            } else if r.live_seen {
                MetaPhase::Finished { status: StageOutcome::LiveDetected }
            } else if r.success && !r.timed_out && r.info_live == Some(true) {
                MetaPhase::Finished { status: StageOutcome::LiveDetected }
            } else if r.success && !r.timed_out && r.info_live == Some(false) {
                MetaPhase::StageTwo
            } else if r.warning_seen && attempt < max_attempts {
                MetaPhase::StageOne { attempt: attempt + 1 }
            } else if r.success && !r.timed_out {
                MetaPhase::StageTwo
            } else if r.timed_out {
                MetaPhase::Finished { status: StageOutcome::TimedOut }
            } else if r.cancelled {
                MetaPhase::Finished { status: StageOutcome::Cancelled }
            } else {
                MetaPhase::Finished { status: StageOutcome::Failed }
            }
        },
        MetaPhase::StageTwo => {
            if r.live_seen {
                MetaPhase::Finished { status: StageOutcome::LiveDetected }
            } else {
                MetaPhase::Finished { status: StageOutcome::Normal }
            }
        },
        MetaPhase::Finished { status } => MetaPhase::Finished { status },
    }
}

/// The phase the flow reaches after a run of reports.
pub open spec fn run_meta(phase: MetaPhase, max_attempts: u32, reports: Seq<AttemptReport>)
    -> MetaPhase
    decreases reports.len(),
{
    if reports.len() == 0 {
        phase
    } else {
        run_meta(spec_meta_step(phase, max_attempts, reports[0]), max_attempts, reports.drop_first())
    }
}

/// A finished flow never moves again.
pub proof fn lemma_finished_absorbs(status: StageOutcome, max_attempts: u32, reports: Seq<
    AttemptReport,
>)
    ensures
        run_meta(MetaPhase::Finished { status }, max_attempts, reports) == (MetaPhase::Finished {
            status,
        }),
    decreases reports.len(),
{
    if reports.len() > 0 {
        lemma_finished_absorbs(status, max_attempts, reports.drop_first());
    }
}

/// Once the live-stream detector fires during stage one of a metadata fetch
/// (with the tool running and no upcoming event announced first), the flow
/// finishes as live-detected then and there, and no later report — in
/// particular no second stage — ever runs or changes that.
pub proof fn lemma_live_skips_stage_two(
    attempt: u32,
    max_attempts: u32,
    r: AttemptReport,
    later: Seq<AttemptReport>,
)
    requires
        r.spawned,
        r.live_seen,
        !r.upcoming_seen,
    ensures
        spec_meta_step(MetaPhase::StageOne { attempt }, max_attempts, r) == (MetaPhase::Finished {
            status: StageOutcome::LiveDetected,
        }),
        run_meta(
            spec_meta_step(MetaPhase::StageOne { attempt }, max_attempts, r),
            max_attempts,
            later,
        ) == (MetaPhase::Finished { status: StageOutcome::LiveDetected }),
{
    lemma_finished_absorbs(StageOutcome::LiveDetected, max_attempts, later);
}

/// Stage two is admitted only by a stage-one attempt that concluded normal:
/// one that spawned, saw no detector fire, succeeded in time, and whose
/// record, if readable, says the content is not live.
pub proof fn lemma_stage_two_only_after_normal(attempt: u32, max_attempts: u32, r: AttemptReport)
    ensures
        spec_meta_step(MetaPhase::StageOne { attempt }, max_attempts, r) == MetaPhase::StageTwo
            ==> (r.spawned && !r.upcoming_seen && !r.live_seen && r.success && !r.timed_out
            && r.info_live != Some(true)),
{
}

} // verus!
