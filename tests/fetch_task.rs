use philia_engine::fetch::{FetchAction, FetchEvent, FetchMode, FetchOutcome, FetchPhase, FetchTask};
use philia_engine::media::ResourceStatus;
use philia_engine::retry::{should_retry, FailureKind, RETRY_COUNT};

fn start(current: bool, resource: ResourceStatus, destination_exists: bool, cached: bool) -> FetchEvent {
    FetchEvent::Started { current, resource, destination_exists, cached }
}

fn started(mode: FetchMode) -> FetchTask {
    let mut t = FetchTask::new(mode);
    assert_eq!(t.step(start(true, ResourceStatus::Ready, false, false)), FetchAction::Fetch);
    t
}

fn fail_and_wait(t: &mut FetchTask) {
    assert_eq!(t.step(FetchEvent::FetchFailed { kind: FailureKind::Transient }), FetchAction::Backoff);
    assert_eq!(t.step(FetchEvent::BackoffElapsed { current: true }), FetchAction::Fetch);
}

#[test]
fn retry_policy_bound() {
    assert_eq!(RETRY_COUNT, 8);
    for k in 0..RETRY_COUNT {
        assert!(should_retry(k, FailureKind::Transient));
    }
    assert!(!should_retry(RETRY_COUNT, FailureKind::Transient));
    assert!(!should_retry(0, FailureKind::Permanent));
}

#[test]
fn transient_failures_past_bound_fail_permanently() {
    let mut t = started(FetchMode::Preview);
    for _ in 0..RETRY_COUNT {
        fail_and_wait(&mut t);
    }
    assert_eq!(t.failures, RETRY_COUNT);
    let a = t.step(FetchEvent::FetchFailed { kind: FailureKind::Transient });
    assert_eq!(a, FetchAction::Finish(FetchOutcome::PermanentFailure));
    assert_eq!(t.outcome(), Some(FetchOutcome::PermanentFailure));
}

#[test]
fn fewer_failures_then_success() {
    let mut t = started(FetchMode::FullDownload);
    for _ in 0..RETRY_COUNT - 1 {
        fail_and_wait(&mut t);
    }
    assert_eq!(t.step(FetchEvent::Fetched { current: true }), FetchAction::Process);
    let a = t.step(FetchEvent::Processed { ok: true, current: true, destination_exists: false });
    assert_eq!(a, FetchAction::Write);
    assert_eq!(t.step(FetchEvent::Written { ok: true }), FetchAction::Finish(FetchOutcome::Success));
    assert_eq!(t.outcome(), Some(FetchOutcome::Success));
}

#[test]
fn preview_success_needs_no_write() {
    let mut t = started(FetchMode::Preview);
    fail_and_wait(&mut t);
    assert_eq!(t.step(FetchEvent::Fetched { current: true }), FetchAction::Process);
    let a = t.step(FetchEvent::Processed { ok: true, current: true, destination_exists: false });
    assert_eq!(a, FetchAction::Finish(FetchOutcome::Success));
}

#[test]
fn permanent_failure_is_not_retried() {
    let mut t = started(FetchMode::Preview);
    let a = t.step(FetchEvent::FetchFailed { kind: FailureKind::Permanent });
    assert_eq!(a, FetchAction::Finish(FetchOutcome::PermanentFailure));
    assert_eq!(t.failures, 0);
}

#[test]
fn existing_destination_is_success_without_write() {
    let mut t = FetchTask::new(FetchMode::FullDownload);
    let a = t.step(start(true, ResourceStatus::Ready, true, false));
    assert_eq!(a, FetchAction::Finish(FetchOutcome::Success));
    assert_eq!(t.phase, FetchPhase::Done(FetchOutcome::Success));
    assert_eq!(t.step(FetchEvent::Written { ok: true }), FetchAction::Ignore);
    assert_eq!(t.step(FetchEvent::Fetched { current: true }), FetchAction::Ignore);
}

#[test]
fn destination_appearing_before_write_is_not_overwritten() {
    let mut t = started(FetchMode::FullDownload);
    assert_eq!(t.step(FetchEvent::Fetched { current: true }), FetchAction::Process);
    let a = t.step(FetchEvent::Processed { ok: true, current: true, destination_exists: true });
    assert_eq!(a, FetchAction::Finish(FetchOutcome::Success));
}

#[test]
fn cached_preview_needs_no_fetch() {
    let mut t = FetchTask::new(FetchMode::Preview);
    let a = t.step(start(true, ResourceStatus::Ready, false, true));
    assert_eq!(a, FetchAction::Finish(FetchOutcome::Success));
}

#[test]
fn stale_start_is_canceled() {
    let mut t = FetchTask::new(FetchMode::Preview);
    let a = t.step(start(false, ResourceStatus::Ready, false, false));
    assert_eq!(a, FetchAction::Finish(FetchOutcome::Canceled));
}

#[test]
fn missing_or_unsupported_resource_fails_permanently() {
    let mut t = FetchTask::new(FetchMode::Preview);
    let a = t.step(start(true, ResourceStatus::MissingUrl, false, false));
    assert_eq!(a, FetchAction::Finish(FetchOutcome::PermanentFailure));
    let mut u = FetchTask::new(FetchMode::FullDownload);
    let b = u.step(start(true, ResourceStatus::Unsupported, false, false));
    assert_eq!(b, FetchAction::Finish(FetchOutcome::PermanentFailure));
}

#[test]
fn cancellation_checkpoints_suppress_commit() {
    let mut t = started(FetchMode::FullDownload);
    assert_eq!(t.step(FetchEvent::Fetched { current: false }), FetchAction::Finish(FetchOutcome::Canceled));

    let mut u = started(FetchMode::FullDownload);
    assert_eq!(u.step(FetchEvent::Fetched { current: true }), FetchAction::Process);
    let a = u.step(FetchEvent::Processed { ok: true, current: false, destination_exists: false });
    assert_eq!(a, FetchAction::Finish(FetchOutcome::Canceled));

    let mut w = started(FetchMode::Preview);
    assert_eq!(w.step(FetchEvent::FetchFailed { kind: FailureKind::Transient }), FetchAction::Backoff);
    let b = w.step(FetchEvent::BackoffElapsed { current: false });
    assert_eq!(b, FetchAction::Finish(FetchOutcome::Canceled));
}

#[test]
fn failed_processing_or_write_fails_permanently() {
    let mut t = started(FetchMode::Preview);
    t.step(FetchEvent::Fetched { current: true });
    let a = t.step(FetchEvent::Processed { ok: false, current: true, destination_exists: false });
    assert_eq!(a, FetchAction::Finish(FetchOutcome::PermanentFailure));

    let mut u = started(FetchMode::FullDownload);
    u.step(FetchEvent::Fetched { current: true });
    u.step(FetchEvent::Processed { ok: true, current: true, destination_exists: false });
    assert_eq!(u.step(FetchEvent::Written { ok: false }), FetchAction::Finish(FetchOutcome::PermanentFailure));
}

#[test]
fn out_of_phase_event_is_ignored() {
    let mut t = FetchTask::new(FetchMode::Preview);
    assert_eq!(t.step(FetchEvent::Written { ok: true }), FetchAction::Ignore);
    assert_eq!(t.phase, FetchPhase::Ready);
    assert_eq!(t.outcome(), None);
}
