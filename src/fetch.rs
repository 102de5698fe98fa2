use vstd::prelude::*;
use crate::media::ResourceStatus;
use crate::retry::{retry_allowed, should_retry, FailureKind, RETRY_COUNT};

verus! {

/// What a fetch produces: a thumbnail for the result list, or the full
/// resource saved to disk.
#[derive(Debug, Clone, Copy, PartialEq, Eq, Structural)]
pub enum FetchMode {
    Preview,
    FullDownload,
}

/// How a fetch task ended.
#[derive(Debug, Clone, Copy, PartialEq, Eq, Structural)]
pub enum FetchOutcome {
    Success,
    PermanentFailure,
    /// The request the task belonged to was superseded; nothing was committed.
    Canceled,
}

#[derive(Debug, Clone, Copy, PartialEq, Eq, Structural)]
pub enum FetchPhase {
    /// Not started yet.
    Ready,
    /// Waiting for the fetch of the resource.
    Fetching,
    /// Waiting out the pause before the next try.
    BackingOff,
    /// Waiting for post-processing (render or transform) of fetched bytes.
    Processing,
    /// Waiting for the write of the full resource to disk.
    Writing,
    Done(FetchOutcome),
}

/// What the runner of a task observed; each `current` is the result of a
/// cancellation checkpoint taken just before the event was reported.
#[derive(Debug, Clone, Copy, PartialEq, Eq, Structural)]
pub enum FetchEvent {
    Started {
        current: bool,
        resource: ResourceStatus,
        destination_exists: bool,
        cached: bool,
    },
    FetchFailed { kind: FailureKind },
    BackoffElapsed { current: bool },
    Fetched { current: bool },
    Processed { ok: bool, current: bool, destination_exists: bool },
    Written { ok: bool },
}

/// What the runner of a task must do next.
#[derive(Debug, Clone, Copy, PartialEq, Eq, Structural)]
pub enum FetchAction {
    /// Fetch the resource, then report `Fetched` or `FetchFailed`.
    Fetch,
    /// Sleep the retry delay, then report `BackoffElapsed`.
    Backoff,
    /// Post-process the fetched bytes, then report `Processed`.
    Process,
    /// Write the bytes to the destination, then report `Written`.
    Write,
    /// Report the outcome to the orchestrator; the task is over.
    Finish(FetchOutcome),
    /// The event does not belong to the task's phase; nothing to do.
    Ignore,
}

/// The unit of concurrent work: fetches one item, with retries and
/// cancellation checkpoints, as a state machine driven by its runner.
#[derive(Debug, Clone, Copy, PartialEq, Eq, Structural)]
pub struct FetchTask {
    pub mode: FetchMode,
    pub phase: FetchPhase,
    /// Failed tries so far that were followed by another try.
    pub failures: u32,
}

pub open spec fn finished(t: FetchTask, o: FetchOutcome) -> (FetchTask, FetchAction) {
    (FetchTask { phase: FetchPhase::Done(o), ..t }, FetchAction::Finish(o))
}

pub open spec fn moved(t: FetchTask, p: FetchPhase, a: FetchAction) -> (FetchTask, FetchAction) {
    (FetchTask { phase: p, ..t }, a)
}

/// The task's transition on one event.
pub open spec fn transition(t: FetchTask, e: FetchEvent) -> (FetchTask, FetchAction) {
    match (t.phase, e) {
        (FetchPhase::Ready, FetchEvent::Started { current, resource, destination_exists, cached }) => {
            if !current {
                finished(t, FetchOutcome::Canceled)
            } else if resource != ResourceStatus::Ready {
                finished(t, FetchOutcome::PermanentFailure)
            } else if (t.mode == FetchMode::FullDownload && destination_exists) || (t.mode
                == FetchMode::Preview && cached) {
                finished(t, FetchOutcome::Success)
            } else {
                moved(t, FetchPhase::Fetching, FetchAction::Fetch)
            }
        },
        (FetchPhase::Fetching, FetchEvent::FetchFailed { kind }) => {
            if retry_allowed(t.failures, kind) {
                (
                    FetchTask { phase: FetchPhase::BackingOff, failures: (t.failures + 1) as u32, ..t },
                    FetchAction::Backoff,
                )
            } else {
                finished(t, FetchOutcome::PermanentFailure)
            }
        },
        (FetchPhase::BackingOff, FetchEvent::BackoffElapsed { current }) => {
            if !current {
                finished(t, FetchOutcome::Canceled)
            } else {
                moved(t, FetchPhase::Fetching, FetchAction::Fetch)
            }
        },
        (FetchPhase::Fetching, FetchEvent::Fetched { current }) => {
            if !current {
                finished(t, FetchOutcome::Canceled)
            } else {
                moved(t, FetchPhase::Processing, FetchAction::Process)
            }
        },
        (FetchPhase::Processing, FetchEvent::Processed { ok, current, destination_exists }) => {
            if !current {
                finished(t, FetchOutcome::Canceled)
            } else if !ok {
                finished(t, FetchOutcome::PermanentFailure)
            } else if t.mode == FetchMode::Preview || destination_exists {
                finished(t, FetchOutcome::Success)
            } else {
                moved(t, FetchPhase::Writing, FetchAction::Write)
            }
        },
        (FetchPhase::Writing, FetchEvent::Written { ok }) => {
            if ok {
                finished(t, FetchOutcome::Success)
            } else {
                finished(t, FetchOutcome::PermanentFailure)
            }
        },
        _ => (t, FetchAction::Ignore),
    }
}

/// The well-formed tasks: the failure count never passes the retry bound.
pub open spec fn task_wf(t: FetchTask) -> bool {
    t.failures <= RETRY_COUNT
}

impl FetchTask {
    pub open spec fn new_spec(mode: FetchMode) -> FetchTask {
        FetchTask { mode, phase: FetchPhase::Ready, failures: 0 }
    }

    /// A task that has not started.
    pub fn new(mode: FetchMode) -> (r: FetchTask)
        ensures
            r == FetchTask::new_spec(mode),
            task_wf(r),
    {
        FetchTask { mode, phase: FetchPhase::Ready, failures: 0 }
    }

    fn finish(&mut self, o: FetchOutcome) -> (r: FetchAction)
        ensures
            (*final(self), r) == finished(*old(self), o),
    {
        self.phase = FetchPhase::Done(o);
        FetchAction::Finish(o)
    }

    fn advance(&mut self, p: FetchPhase, a: FetchAction) -> (r: FetchAction)
        ensures
            (*final(self), r) == moved(*old(self), p, a),
    {
        self.phase = p;
        a
    }

    /// Applies one event and returns what the runner must do next.
    pub fn step(&mut self, e: FetchEvent) -> (r: FetchAction)
        requires
            task_wf(*old(self)),
        ensures
            (*final(self), r) == transition(*old(self), e),
            task_wf(*final(self)),
    {
        match (self.phase, e) {
            (FetchPhase::Ready, FetchEvent::Started { current, resource, destination_exists, cached }) => {
                if !current {
                    self.finish(FetchOutcome::Canceled)
                } else if resource != ResourceStatus::Ready {
                    self.finish(FetchOutcome::PermanentFailure)
                } else if (self.mode == FetchMode::FullDownload && destination_exists) || (self.mode
                    == FetchMode::Preview && cached) {
                    self.finish(FetchOutcome::Success)
                } else {
                    self.advance(FetchPhase::Fetching, FetchAction::Fetch)
                }
            },
            (FetchPhase::Fetching, FetchEvent::FetchFailed { kind }) => {
                if should_retry(self.failures, kind) {
                    self.failures = self.failures + 1;
                    self.phase = FetchPhase::BackingOff;
                    FetchAction::Backoff
                } else {
                    self.finish(FetchOutcome::PermanentFailure)
                }
            },
            (FetchPhase::BackingOff, FetchEvent::BackoffElapsed { current }) => {
                if !current {
                    self.finish(FetchOutcome::Canceled)
                } else {
                    self.advance(FetchPhase::Fetching, FetchAction::Fetch)
                }
            },
            (FetchPhase::Fetching, FetchEvent::Fetched { current }) => {
                if !current {
                    self.finish(FetchOutcome::Canceled)
                } else {
                    self.advance(FetchPhase::Processing, FetchAction::Process)
                }
            },
            (FetchPhase::Processing, FetchEvent::Processed { ok, current, destination_exists }) => {
                if !current {
                    self.finish(FetchOutcome::Canceled)
                } else if !ok {
                    self.finish(FetchOutcome::PermanentFailure)
                } else if self.mode == FetchMode::Preview || destination_exists {
                    self.finish(FetchOutcome::Success)
                } else {
                    self.advance(FetchPhase::Writing, FetchAction::Write)
                }
            },
            (FetchPhase::Writing, FetchEvent::Written { ok }) => {
                if ok {
                    self.finish(FetchOutcome::Success)
                } else {
                    self.finish(FetchOutcome::PermanentFailure)
                }
            },
            _ => FetchAction::Ignore,
        }
    }

    /// The outcome, once the task is over.
    pub fn outcome(&self) -> (r: Option<FetchOutcome>)
        ensures
            r == match self.phase {
                FetchPhase::Done(o) => Some(o),
                _ => None,
            },
    {
        match self.phase {
            FetchPhase::Done(o) => Some(o),
            _ => None,
        }
    }
}

/// The task after a run of events, in order.
pub open spec fn run(t: FetchTask, es: Seq<FetchEvent>) -> FetchTask
    decreases es.len(),
{
    if es.len() == 0 {
        t
    } else {
        run(transition(t, es[0]).0, es.drop_first())
    }
}

/// The start of a fetch whose request is live and whose resource is ready,
/// with nothing on disk or in the cache yet.
pub open spec fn fresh_start() -> FetchEvent {
    FetchEvent::Started {
        current: true,
        resource: ResourceStatus::Ready,
        destination_exists: false,
        cached: false,
    }
}

/// `k` transient failures, each followed by the pause before the next try.
pub open spec fn transient_failures(k: nat) -> Seq<FetchEvent>
    decreases k,
{
    if k == 0 {
        Seq::empty()
    } else {
        transient_failures((k - 1) as nat) + seq![
            FetchEvent::FetchFailed { kind: FailureKind::Transient },
            FetchEvent::BackoffElapsed { current: true },
        ]
    }
}

/// A fetch that succeeds and whose result is processed and written.
pub open spec fn success_events() -> Seq<FetchEvent> {
    seq![
        FetchEvent::Fetched { current: true },
        FetchEvent::Processed { ok: true, current: true, destination_exists: false },
        FetchEvent::Written { ok: true },
    ]
}

pub proof fn lemma_run_append(t: FetchTask, a: Seq<FetchEvent>, b: Seq<FetchEvent>)
    ensures
        run(t, a + b) == run(run(t, a), b),
    decreases a.len(),
{
    if a.len() > 0 {
        assert((a + b).drop_first() =~= a.drop_first() + b);
        lemma_run_append(transition(t, a[0]).0, a.drop_first(), b);
    } else {
        assert(a + b =~= b);
    }
}

proof fn lemma_run_single(t: FetchTask, e: FetchEvent)
    ensures
        run(t, seq![e]) == transition(t, e).0,
{
    let s = seq![e];
    assert(s.drop_first() =~= Seq::<FetchEvent>::empty());
    assert(run(transition(t, e).0, s.drop_first()) == transition(t, e).0);
}

proof fn lemma_run_pair(t: FetchTask, a: FetchEvent, b: FetchEvent)
    ensures
        run(t, seq![a, b]) == transition(transition(t, a).0, b).0,
{
    assert(seq![a, b] =~= seq![a] + seq![b]);
    lemma_run_append(t, seq![a], seq![b]);
    lemma_run_single(t, a);
    lemma_run_single(transition(t, a).0, b);
}

proof fn lemma_after_failures(mode: FetchMode, k: nat)
    requires
        k <= RETRY_COUNT,
    ensures
        run(FetchTask { mode, phase: FetchPhase::Fetching, failures: 0 }, transient_failures(k))
            == (FetchTask { mode, phase: FetchPhase::Fetching, failures: k as u32 }),
    decreases k,
{
    let t = FetchTask { mode, phase: FetchPhase::Fetching, failures: 0 };
    if k > 0 {
        lemma_after_failures(mode, (k - 1) as nat);
        let a = FetchEvent::FetchFailed { kind: FailureKind::Transient };
        let b = FetchEvent::BackoffElapsed { current: true };
        lemma_run_append(t, transient_failures((k - 1) as nat), seq![a, b]);
        let mid = FetchTask { mode, phase: FetchPhase::Fetching, failures: (k - 1) as u32 };
        lemma_run_pair(mid, a, b);
    } else {
        assert(run(t, Seq::empty()) == t);
    }
}

/// A task whose fetch fails transiently `RETRY_COUNT` times in a row, each
/// time tried again, and then once more, ends in permanent failure.
pub proof fn lemma_retries_exhausted(mode: FetchMode)
    ensures
        run(
            FetchTask::new_spec(mode),
            seq![fresh_start()] + transient_failures(RETRY_COUNT as nat) + seq![
                FetchEvent::FetchFailed { kind: FailureKind::Transient },
            ],
        ).phase == FetchPhase::Done(FetchOutcome::PermanentFailure),
{
    let t0 = FetchTask::new_spec(mode);
    let t1 = FetchTask { mode, phase: FetchPhase::Fetching, failures: 0 };
    let last = FetchEvent::FetchFailed { kind: FailureKind::Transient };
    let fails = transient_failures(RETRY_COUNT as nat);
    lemma_run_append(t0, seq![fresh_start()] + fails, seq![last]);
    lemma_run_append(t0, seq![fresh_start()], fails);
    lemma_run_single(t0, fresh_start());
    lemma_after_failures(mode, RETRY_COUNT as nat);
    let t2 = FetchTask { mode, phase: FetchPhase::Fetching, failures: RETRY_COUNT };
    lemma_run_single(t2, last);
}

/// A task whose fetch fails transiently fewer than `RETRY_COUNT` times, each
/// time tried again, and then succeeds, ends in success.
pub proof fn lemma_retry_then_success(mode: FetchMode, k: nat)
    requires
        k < RETRY_COUNT,
    ensures
        run(
            FetchTask::new_spec(mode),
            seq![fresh_start()] + transient_failures(k) + success_events(),
        ).phase == FetchPhase::Done(FetchOutcome::Success),
{
    let t0 = FetchTask::new_spec(mode);
    let fails = transient_failures(k);
    let tail = success_events();
    lemma_run_append(t0, seq![fresh_start()] + fails, tail);
    lemma_run_append(t0, seq![fresh_start()], fails);
    lemma_run_single(t0, fresh_start());
    lemma_after_failures(mode, k);
    let t2 = FetchTask { mode, phase: FetchPhase::Fetching, failures: k as u32 };
    assert(tail =~= seq![tail[0], tail[1]] + seq![tail[2]]);
    lemma_run_append(t2, seq![tail[0], tail[1]], seq![tail[2]]);
    lemma_run_pair(t2, tail[0], tail[1]);
    lemma_run_single(run(t2, seq![tail[0], tail[1]]), tail[2]);
}

/// A full download whose destination file already exists succeeds at its
/// start, and no later event makes it write anything.
pub proof fn lemma_existing_destination_succeeds(cached: bool, e: FetchEvent)
    ensures
        ({
            let start = FetchEvent::Started {
                current: true,
                resource: ResourceStatus::Ready,
                destination_exists: true,
                cached,
            };
            let (t, a) = transition(FetchTask::new_spec(FetchMode::FullDownload), start);
            &&& t.phase == FetchPhase::Done(FetchOutcome::Success)
            &&& a == FetchAction::Finish(FetchOutcome::Success)
            &&& transition(t, e) == (t, FetchAction::Ignore)
        }),
{
}

} // verus!
