use vstd::prelude::*;
use crate::fetch::{
    lemma_existing_destination_succeeds, transition, FetchAction, FetchEvent, FetchMode,
    FetchOutcome, FetchTask,
};
use crate::media::ResourceStatus;
use crate::generation::{Generation, GenerationCounter};
use crate::tally::{count, lemma_count_bounded, lemma_count_none, lemma_count_update};

verus! {

/// Progress of the current download batch.
#[derive(Debug, Clone, Copy, PartialEq, Eq, Structural)]
pub enum DownloadProgress {
    Complete,
    DownloadingPosts { downloaded: usize, total: usize },
}

/// Where one item of the batch stands.
#[derive(Debug, Clone, Copy, PartialEq, Eq, Structural)]
pub enum DownloadState {
    Pending,
    Downloaded,
    Failed,
}

/// What a report did to the batch.
#[derive(Debug, Clone, Copy, PartialEq, Eq, Structural)]
pub enum ReportEffect {
    /// Stale, duplicate, canceled or out of range: nothing changed.
    Ignored,
    /// Counted; the batch goes on.
    Counted,
    /// Counted, and it was the last one: the batch is complete.
    Completed,
}

/// The download orchestrator: one batch at a time, each item fetched by
/// its own task, with progress counted per item index.
#[derive(Debug)]
pub struct DownloadContext {
    pub progress: DownloadProgress,
    pub states: Vec<DownloadState>,
    pub generations: GenerationCounter,
}

/// The abstract state of a download orchestrator.
pub struct DownloadView {
    pub progress: DownloadProgress,
    pub states: Seq<DownloadState>,
    pub live: u64,
}

impl View for DownloadContext {
    type V = DownloadView;

    open spec fn view(&self) -> DownloadView {
        DownloadView { progress: self.progress, states: self.states@, live: self.generations.live() }
    }
}

pub open spec fn downloaded_count(s: Seq<DownloadState>) -> nat {
    count(s, |x: DownloadState| x == DownloadState::Downloaded)
}

pub open spec fn failed_count(s: Seq<DownloadState>) -> nat {
    count(s, |x: DownloadState| x == DownloadState::Failed)
}

impl DownloadView {
    /// The invariant: while the batch runs, `downloaded` counts the items
    /// saved and `total` those that have not failed; the batch is complete
    /// as soon as the two meet.
    pub open spec fn wf(self) -> bool {
        match self.progress {
            DownloadProgress::DownloadingPosts { downloaded, total } => {
                &&& downloaded < total
                &&& total <= self.states.len()
                &&& downloaded_count(self.states) == downloaded
                &&& failed_count(self.states) == self.states.len() - total
            },
            _ => true,
        }
    }

    pub open spec fn accepts(self, g: Generation, i: int, outcome: FetchOutcome) -> bool {
        &&& g.value == self.live
        &&& self.progress is DownloadingPosts
        &&& 0 <= i < self.states.len()
        &&& self.states[i] == DownloadState::Pending
        &&& outcome != FetchOutcome::Canceled
    }

    /// The state after the task of item `i`, started under `g`, ended with
    /// `outcome`: success counts as downloaded, permanent failure lowers
    /// the total.
    pub open spec fn after_report(self, g: Generation, i: int, outcome: FetchOutcome) -> DownloadView {
        if !self.accepts(g, i, outcome) {
            self
        } else {
            let d = self.progress->downloaded;
            let t = self.progress->total;
            let (st, d2, t2) = if outcome == FetchOutcome::Success {
                (DownloadState::Downloaded, d + 1, t as int)
            } else {
                (DownloadState::Failed, d as int, t - 1)
            };
            DownloadView {
                states: self.states.update(i, st),
                progress: if d2 == t2 {
                    DownloadProgress::Complete
                } else {
                    DownloadProgress::DownloadingPosts { downloaded: d2 as usize, total: t2 as usize }
                },
                ..self
            }
        }
    }
}

impl DownloadContext {
    pub open spec fn wf(&self) -> bool {
        self@.wf()
    }

    pub fn new() -> (r: DownloadContext)
        ensures
            r.wf(),
            r@.progress == DownloadProgress::Complete,
            r@.states.len() == 0,
            r@.live == 0,
    {
        DownloadContext {
            progress: DownloadProgress::Complete,
            states: Vec::new(),
            generations: GenerationCounter::new(),
        }
    }

    /// Starts a batch of `n` items under a fresh generation, which
    /// invalidates the tasks of any earlier batch. An empty batch is
    /// complete at once.
    pub fn request_download(&mut self, n: usize) -> (r: Generation)
        requires
            old(self).wf(),
            old(self)@.live < u64::MAX,
        ensures
            final(self).wf(),
            final(self)@ == (DownloadView {
                progress: if n == 0 {
                    DownloadProgress::Complete
                } else {
                    DownloadProgress::DownloadingPosts { downloaded: 0, total: n }
                },
                states: Seq::new(n as nat, |j: int| DownloadState::Pending),
                live: (old(self)@.live + 1) as u64,
            }),
            r.value == final(self)@.live,
    {
        let g = self.generations.new_generation();
        let mut states: Vec<DownloadState> = Vec::new();
        let mut k: usize = 0;
        while k < n
            invariant
                k <= n,
                states@ == Seq::new(k as nat, |j: int| DownloadState::Pending),
            decreases n - k,
        {
            states.push(DownloadState::Pending);
            k = k + 1;
            assert(states@ =~= Seq::new(k as nat, |j: int| DownloadState::Pending));
        }
        self.states = states;
        if n == 0 {
            self.progress = DownloadProgress::Complete;
        } else {
            self.progress = DownloadProgress::DownloadingPosts { downloaded: 0, total: n };
            proof {
                lemma_count_none(self.states@, |x: DownloadState| x == DownloadState::Downloaded);
                lemma_count_none(self.states@, |x: DownloadState| x == DownloadState::Failed);
            }
        }
        g
    }

    /// Cancels the batch: a fresh generation invalidates its tasks and the
    /// batch is complete at once.
    pub fn cancel_download(&mut self)
        requires
            old(self).wf(),
            old(self)@.live < u64::MAX,
        ensures
            final(self).wf(),
            final(self)@ == (DownloadView {
                progress: DownloadProgress::Complete,
                live: (old(self)@.live + 1) as u64,
                ..old(self)@
            }),
    {
        let _ = self.generations.new_generation();
        self.progress = DownloadProgress::Complete;
    }

    /// Takes the outcome of the task of item `i`, started under `g`.
    pub fn image_downloaded(&mut self, g: Generation, i: usize, outcome: FetchOutcome) -> (r:
        ReportEffect)
        requires
            old(self).wf(),
        ensures
            final(self).wf(),
            final(self)@ == old(self)@.after_report(g, i as int, outcome),
            r == if !old(self)@.accepts(g, i as int, outcome) {
                ReportEffect::Ignored
            } else if final(self)@.progress == DownloadProgress::Complete {
                ReportEffect::Completed
            } else {
                ReportEffect::Counted
            },
    {
        if !self.generations.is_current(g) {
            return ReportEffect::Ignored;
        }
        let (d, t) = match self.progress {
            DownloadProgress::DownloadingPosts { downloaded, total } => (downloaded, total),
            _ => return ReportEffect::Ignored,
        };
        if i >= self.states.len() || self.states[i] != DownloadState::Pending {
            return ReportEffect::Ignored;
        }
        let (st, d2, t2) = match outcome {
            FetchOutcome::Canceled => return ReportEffect::Ignored,
            FetchOutcome::Success => (DownloadState::Downloaded, d + 1, t),
            FetchOutcome::PermanentFailure => (DownloadState::Failed, d, t - 1),
        };
        proof {
            let s = self.states@;
            lemma_count_update(s, i as int, st, |x: DownloadState| x == DownloadState::Downloaded);
            lemma_count_update(s, i as int, st, |x: DownloadState| x == DownloadState::Failed);
            lemma_count_bounded(s, |x: DownloadState| x == DownloadState::Failed);
        }
        self.states.set(i, st);
        if d2 == t2 {
            self.progress = DownloadProgress::Complete;
            ReportEffect::Completed
        } else {
            self.progress = DownloadProgress::DownloadingPosts { downloaded: d2, total: t2 };
            ReportEffect::Counted
        }
    }
}

/// A download whose destination file already exists ends in success at
/// its start and never writes; its report then counts the item as
/// downloaded, like any other success.
pub proof fn lemma_existing_destination_counts(
    v: DownloadView,
    g: Generation,
    i: int,
    cached: bool,
    later: FetchEvent,
)
    requires
        v.wf(),
        v.accepts(g, i, FetchOutcome::Success),
    ensures
        ({
            let start = FetchEvent::Started {
                current: true,
                resource: ResourceStatus::Ready,
                destination_exists: true,
                cached,
            };
            let (t, a) = transition(FetchTask::new_spec(FetchMode::FullDownload), start);
            &&& a == FetchAction::Finish(FetchOutcome::Success)
            &&& transition(t, later) == (t, FetchAction::Ignore)
        }),
        ({
            let w = v.after_report(g, i, FetchOutcome::Success);
            &&& w.states[i] == DownloadState::Downloaded
            &&& downloaded_count(w.states) == downloaded_count(v.states) + 1
            &&& w.progress is DownloadingPosts ==> w.progress->downloaded == v.progress->downloaded
                + 1
        }),
{
    lemma_existing_destination_succeeds(cached, later);
    lemma_count_update(
        v.states,
        i,
        DownloadState::Downloaded,
        |x: DownloadState| x == DownloadState::Downloaded,
    );
}

/// Once a batch is canceled, no task started before the cancellation can
/// change its counts.
pub proof fn lemma_superseded_download_ignored(
    v: DownloadView,
    g: Generation,
    i: int,
    outcome: FetchOutcome,
)
    requires
        g.value < v.live,
    ensures
        v.after_report(g, i, outcome) == v,
{
}

} // verus!
