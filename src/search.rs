use vstd::prelude::*;
use crate::generation::{Generation, GenerationCounter};
use crate::item::Item;
use crate::tally::{count, lemma_count_bounded, lemma_count_none, lemma_count_update};
use crate::text::{copy_strings, str_eq};

verus! {

/// The order a search asks the catalog for.
#[derive(Debug, Clone, Copy, PartialEq, Eq, Structural)]
pub enum Sorting {
    Date,
    DateAsc,
    Score,
    ScoreAsc,
}

pub open spec fn sorting_label(s: Sorting) -> Seq<char> {
    match s {
        Sorting::Date => "Newest"@,
        Sorting::DateAsc => "Oldest"@,
        Sorting::Score => "Most liked"@,
        Sorting::ScoreAsc => "Least liked"@,
    }
}

impl Sorting {
    /// The name the order is shown under.
    pub fn label(&self) -> (r: String)
        ensures
            r@ == sorting_label(*self),
    {
        match self {
            Sorting::Date => String::from_str("Newest"),
            Sorting::DateAsc => String::from_str("Oldest"),
            Sorting::Score => String::from_str("Most liked"),
            Sorting::ScoreAsc => String::from_str("Least liked"),
        }
    }

    /// Every order, in the order they are offered.
    pub fn all() -> (r: Vec<Sorting>)
        ensures
            r@ == seq![Sorting::Date, Sorting::DateAsc, Sorting::Score, Sorting::ScoreAsc],
    {
        let mut v: Vec<Sorting> = Vec::new();
        v.push(Sorting::Date);
        v.push(Sorting::DateAsc);
        v.push(Sorting::Score);
        v.push(Sorting::ScoreAsc);
        assert(v@ =~= seq![Sorting::Date, Sorting::DateAsc, Sorting::Score, Sorting::ScoreAsc]);
        v
    }
}

/// Progress of the current search.
#[derive(Debug, Clone, Copy, PartialEq, Eq, Structural)]
pub enum SearchStatus {
    Complete,
    Searching,
    LoadingPosts { loaded: usize, total: usize },
}

/// The thumbnail of one result.
#[derive(Debug)]
pub enum PostPreview {
    Failed,
    Pending,
    /// The rendered thumbnail, encoded.
    Loaded(Vec<u8>),
}

/// One entry of the result list.
#[derive(Debug)]
pub struct SearchResult {
    pub info: Item,
    /// Width and height of the rendered thumbnail; zero until it is loaded.
    pub size: (u32, u32),
    pub preview: PostPreview,
}

/// What a preview task reports for its result.
#[derive(Debug)]
pub enum PreviewReport {
    Loaded { size: (u32, u32), data: Vec<u8> },
    Failed,
    Canceled,
}

/// What to ask the catalog backend for.
#[derive(Debug)]
pub struct SearchQuery {
    pub required: Vec<String>,
    pub excluded: Vec<String>,
    pub order: Sorting,
    pub limit: usize,
    pub page: usize,
}

/// The largest number of results per page a search may ask for.
pub const MAX_PER_PAGE: usize = 320;

/// The search orchestrator: parameters of the next search, the result list
/// of the current one and the state machine that tracks its previews.
#[derive(Debug)]
pub struct SearchContext {
    pub page: usize,
    pub per_page: usize,
    pub sorting: Sorting,
    pub status: SearchStatus,
    pub required: Vec<String>,
    pub excluded: Vec<String>,
    pub results: Vec<SearchResult>,
    pub generations: GenerationCounter,
}

/// The abstract state of a search orchestrator.
pub struct SearchView {
    pub page: usize,
    pub per_page: usize,
    pub sorting: Sorting,
    pub status: SearchStatus,
    pub required: Seq<String>,
    pub excluded: Seq<String>,
    pub results: Seq<SearchResult>,
    pub live: u64,
}

impl View for SearchContext {
    type V = SearchView;

    open spec fn view(&self) -> SearchView {
        SearchView {
            page: self.page,
            per_page: self.per_page,
            sorting: self.sorting,
            status: self.status,
            required: self.required@,
            excluded: self.excluded@,
            results: self.results@,
            live: self.generations.live(),
        }
    }
}

pub open spec fn is_loaded(r: SearchResult) -> bool {
    r.preview is Loaded
}

pub open spec fn is_failed(r: SearchResult) -> bool {
    r.preview is Failed
}

pub open spec fn is_pending(r: SearchResult) -> bool {
    r.preview is Pending
}

pub open spec fn loaded_count(rs: Seq<SearchResult>) -> nat {
    count(rs, |r: SearchResult| is_loaded(r))
}

pub open spec fn failed_count(rs: Seq<SearchResult>) -> nat {
    count(rs, |r: SearchResult| is_failed(r))
}

pub open spec fn pending_count(rs: Seq<SearchResult>) -> nat {
    count(rs, |r: SearchResult| is_pending(r))
}

/// The result list a search starts with: one pending entry per item, in the
/// backend's order.
pub open spec fn pending_results(items: Seq<Item>) -> Seq<SearchResult> {
    items.map_values(|it: Item| SearchResult { info: it, size: (0, 0), preview: PostPreview::Pending })
}

/// `v` without the strings equal to `t`, in order.
pub open spec fn without_text(v: Seq<String>, t: Seq<char>) -> Seq<String>
    decreases v.len(),
{
    if v.len() == 0 {
        Seq::empty()
    } else {
        without_text(v.drop_last(), t) + if v.last()@ == t {
            Seq::empty()
        } else {
            seq![v.last()]
        }
    }
}

/// `v` without `t`, then with `t` at the end.
pub open spec fn moved_to_end(v: Seq<String>, t: String) -> Seq<String> {
    without_text(v, t@).push(t)
}

/// The strings of `v` that differ from `t`, in order.
pub fn remove_text(v: &Vec<String>, t: &str) -> (r: Vec<String>)
    ensures
        r@ == without_text(v@, t@),
{
    let mut out: Vec<String> = Vec::new();
    let mut i: usize = 0;
    while i < v.len()
        invariant
            i <= v.len(),
            out@ == without_text(v@.subrange(0, i as int), t@),
        decreases v.len() - i,
    {
        proof {
            assert(v@.subrange(0, i + 1).drop_last() =~= v@.subrange(0, i as int));
        }
        if !str_eq(v[i].as_str(), t) {
            out.push(v[i].clone());
        }
        i = i + 1;
        assert(out@ =~= without_text(v@.subrange(0, i as int), t@));
    }
    assert(v@.subrange(0, v.len() as int) =~= v@);
    out
}

pub open spec fn clamp_per_page(v: usize) -> usize {
    if v < 1 {
        1
    } else if v > MAX_PER_PAGE {
        MAX_PER_PAGE
    } else {
        v
    }
}

impl SearchView {
    /// The invariant of the orchestrator. While previews load, `loaded`
    /// counts the loaded results and `total` the results that have not
    /// failed; the search is complete as soon as the two meet.
    pub open spec fn wf(self) -> bool {
        &&& self.page >= 1
        &&& 1 <= self.per_page <= MAX_PER_PAGE
        &&& match self.status {
            SearchStatus::LoadingPosts { loaded, total } => {
                &&& loaded < total
                &&& total <= self.results.len()
                &&& loaded_count(self.results) == loaded
                &&& failed_count(self.results) == self.results.len() - total
            },
            _ => true,
        }
    }

    /// Whether a preview report is taken into account.
    pub open spec fn accepts(self, g: Generation, i: int, report: PreviewReport) -> bool {
        &&& g.value == self.live
        &&& self.status is LoadingPosts
        &&& 0 <= i < self.results.len()
        &&& is_pending(self.results[i])
        &&& !(report is Canceled)
    }

    /// The state after a preview report.
    pub open spec fn after_report(self, g: Generation, i: int, report: PreviewReport) -> SearchView {
        if !self.accepts(g, i, report) {
            self
        } else {
            let r = self.results[i];
            let loaded = self.status->loaded;
            let total = self.status->total;
            let (entry, l, t) = match report {
                PreviewReport::Loaded { size, data } => (
                    SearchResult { info: r.info, size, preview: PostPreview::Loaded(data) },
                    loaded + 1,
                    total as int,
                ),
                _ => (
                    SearchResult { info: r.info, size: (0, 0), preview: PostPreview::Failed },
                    loaded as int,
                    total - 1,
                ),
            };
            SearchView {
                results: self.results.update(i, entry),
                status: if l == t {
                    SearchStatus::Complete
                } else {
                    SearchStatus::LoadingPosts { loaded: l as usize, total: t as usize }
                },
                ..self
            }
        }
    }
}

impl SearchContext {
    pub open spec fn wf(&self) -> bool {
        self@.wf()
    }

    /// An idle orchestrator: first page, sixteen results per page.
    pub fn new() -> (r: SearchContext)
        ensures
            r.wf(),
            r.page == 1,
            r.per_page == 16,
            r.sorting == Sorting::Date,
            r.status == SearchStatus::Complete,
            r.required@.len() == 0,
            r.excluded@.len() == 0,
            r.results@.len() == 0,
            r@.live == 0,
    {
        SearchContext {
            page: 1,
            per_page: 16,
            sorting: Sorting::Date,
            status: SearchStatus::Complete,
            required: Vec::new(),
            excluded: Vec::new(),
            results: Vec::new(),
            generations: GenerationCounter::new(),
        }
    }

    /// Sets the page to ask for; pages start at one.
    pub fn page_changed(&mut self, value: usize)
        requires
            old(self).wf(),
        ensures
            final(self).wf(),
            final(self)@ == (SearchView {
                page: if value < 1 {
                    1
                } else {
                    value
                },
                ..old(self)@
            }),
    {
        self.page = if value < 1 {
            1
        } else {
            value
        };
    }

    /// Sets the number of results per page, kept between one and
    /// `MAX_PER_PAGE`.
    pub fn per_page_changed(&mut self, value: usize)
        requires
            old(self).wf(),
        ensures
            final(self).wf(),
            final(self)@ == (SearchView { per_page: clamp_per_page(value), ..old(self)@ }),
    {
        self.per_page = if value < 1 {
            1
        } else if value > MAX_PER_PAGE {
            MAX_PER_PAGE
        } else {
            value
        };
    }

    pub fn sorting_changed(&mut self, value: Sorting)
        requires
            old(self).wf(),
        ensures
            final(self).wf(),
            final(self)@ == (SearchView { sorting: value, ..old(self)@ }),
    {
        self.sorting = value;
    }

    /// Sets the tags that results must have and those they must not have.
    pub fn set_tags(&mut self, required: Vec<String>, excluded: Vec<String>)
        requires
            old(self).wf(),
        ensures
            final(self).wf(),
            final(self)@ == (SearchView { required: required@, excluded: excluded@, ..old(self)@ }),
    {
        self.required = required;
        self.excluded = excluded;
    }

    /// The tag selector asks for results with `tag`: it leaves the excluded
    /// tags and joins the required ones.
    pub fn tag_included(&mut self, tag: String)
        requires
            old(self).wf(),
        ensures
            final(self).wf(),
            final(self)@ == (SearchView {
                required: moved_to_end(old(self)@.required, tag),
                excluded: without_text(old(self)@.excluded, tag@),
                ..old(self)@
            }),
    {
        self.excluded = remove_text(&self.excluded, tag.as_str());
        let mut required = remove_text(&self.required, tag.as_str());
        required.push(tag);
        self.required = required;
    }

    /// The tag selector asks for results without `tag`: it leaves the
    /// required tags and joins the excluded ones.
    pub fn tag_excluded(&mut self, tag: String)
        requires
            old(self).wf(),
        ensures
            final(self).wf(),
            final(self)@ == (SearchView {
                required: without_text(old(self)@.required, tag@),
                excluded: moved_to_end(old(self)@.excluded, tag),
                ..old(self)@
            }),
    {
        self.required = remove_text(&self.required, tag.as_str());
        let mut excluded = remove_text(&self.excluded, tag.as_str());
        excluded.push(tag);
        self.excluded = excluded;
    }

    /// The tag selector stops caring about `tag`: it leaves both lists.
    pub fn tag_ignored(&mut self, tag: &str)
        requires
            old(self).wf(),
        ensures
            final(self).wf(),
            final(self)@ == (SearchView {
                required: without_text(old(self)@.required, tag@),
                excluded: without_text(old(self)@.excluded, tag@),
                ..old(self)@
            }),
    {
        self.required = remove_text(&self.required, tag);
        self.excluded = remove_text(&self.excluded, tag);
    }

    /// Starts a new search: the result list is cleared, a fresh generation
    /// invalidates all outstanding work, and the query for the backend is
    /// returned with it. Animated media are always excluded.
    pub fn request_search(&mut self) -> (r: (Generation, SearchQuery))
        requires
            old(self).wf(),
            old(self)@.live < u64::MAX,
        ensures
            final(self).wf(),
            final(self)@ == (SearchView {
                status: SearchStatus::Searching,
                results: Seq::empty(),
                live: (old(self)@.live + 1) as u64,
                ..old(self)@
            }),
            r.0.value == final(self)@.live,
            r.1.required@ == old(self)@.required,
            r.1.excluded@.len() == old(self)@.excluded.len() + 1,
            r.1.excluded@[0]@ == seq!['a', 'n', 'i', 'm', 'a', 't', 'e', 'd'],
            r.1.excluded@.drop_first() == old(self)@.excluded,
            r.1.order == old(self)@.sorting,
            r.1.limit == old(self)@.per_page,
            r.1.page == old(self)@.page,
    {
        let g = self.generations.new_generation();
        self.results = Vec::new();
        self.status = SearchStatus::Searching;
        let required = copy_strings(&self.required);
        let mut excluded: Vec<String> = Vec::new();
        excluded.push(String::from_str("animated"));
        let rest = copy_strings(&self.excluded);
        let mut rest_mut = rest;
        excluded.append(&mut rest_mut);
        proof {
            reveal_strlit("animated");
            assert(excluded@.drop_first() =~= self.excluded@);
        }
        let query = SearchQuery {
            required,
            excluded,
            order: self.sorting,
            limit: self.per_page,
            page: self.page,
        };
        (g, query)
    }

    /// Cancels the current search: a fresh generation invalidates all
    /// outstanding work and the search is complete at once.
    pub fn cancel_search(&mut self)
        requires
            old(self).wf(),
            old(self)@.live < u64::MAX,
        ensures
            final(self).wf(),
            final(self)@ == (SearchView {
                status: SearchStatus::Complete,
                live: (old(self)@.live + 1) as u64,
                ..old(self)@
            }),
    {
        let _ = self.generations.new_generation();
        self.status = SearchStatus::Complete;
    }

    /// Takes the backend's answer to the search started under `g`. Returns
    /// how many preview tasks to start, one per result index from zero.
    /// An answer to a superseded search, or one that arrives when no search
    /// is running, changes nothing.
    pub fn search_returned(&mut self, g: Generation, posts: Vec<Item>) -> (r: usize)
        requires
            old(self).wf(),
        ensures
            final(self).wf(),
            if g.value == old(self)@.live && old(self)@.status == SearchStatus::Searching {
                &&& final(self)@ == (SearchView {
                    results: pending_results(posts@),
                    status: if posts@.len() == 0 {
                        SearchStatus::Complete
                    } else {
                        SearchStatus::LoadingPosts { loaded: 0, total: posts@.len() as usize }
                    },
                    ..old(self)@
                })
                &&& r == posts@.len()
            } else {
                &&& final(self)@ == old(self)@
                &&& r == 0
            },
    {
        if !self.generations.is_current(g) {
            return 0;
        }
        match self.status {
            SearchStatus::Searching => {},
            _ => return 0,
        }
        let n = posts.len();
        let results = pending_list(posts);
        self.results = results;
        if n == 0 {
            self.status = SearchStatus::Complete;
        } else {
            self.status = SearchStatus::LoadingPosts { loaded: 0, total: n };
            proof {
                lemma_count_none(self.results@, |r: SearchResult| is_loaded(r));
                lemma_count_none(self.results@, |r: SearchResult| is_failed(r));
            }
        }
        n
    }

    /// Takes what the preview task of result `i`, started under `g`,
    /// reports. Returns whether the report was taken into account.
    pub fn preview_finished(&mut self, g: Generation, i: usize, report: PreviewReport) -> (r: bool)
        requires
            old(self).wf(),
        ensures
            final(self).wf(),
            r == old(self)@.accepts(g, i as int, report),
            final(self)@ == old(self)@.after_report(g, i as int, report),
    {
        if !self.generations.is_current(g) {
            return false;
        }
        let (loaded, total) = match self.status {
            SearchStatus::LoadingPosts { loaded, total } => (loaded, total),
            _ => return false,
        };
        if i >= self.results.len() {
            return false;
        }
        match self.results[i].preview {
            PostPreview::Pending => {},
            _ => return false,
        }
        let ghost old_results = self.results@;
        let (l, t) = match report {
            PreviewReport::Canceled => return false,
            PreviewReport::Loaded { size, data } => {
                self.results[i].size = size;
                self.results[i].preview = PostPreview::Loaded(data);
                (loaded + 1, total)
            },
            PreviewReport::Failed => {
                self.results[i].size = (0, 0);
                self.results[i].preview = PostPreview::Failed;
                (loaded, total - 1)
            },
        };
        proof {
            let new_entry = self.results@[i as int];
            assert(self.results@ == old_results.update(i as int, new_entry));
            lemma_count_update(old_results, i as int, new_entry, |r: SearchResult| is_loaded(r));
            lemma_count_update(old_results, i as int, new_entry, |r: SearchResult| is_failed(r));
            lemma_count_bounded(old_results, |r: SearchResult| is_failed(r));
        }
        self.status = if l == t {
            SearchStatus::Complete
        } else {
            SearchStatus::LoadingPosts { loaded: l, total: t }
        };
        true
    }
}

/// One pending result per item, in order.
fn pending_list(posts: Vec<Item>) -> (r: Vec<SearchResult>)
    ensures
        r@ == pending_results(posts@),
{
    let ghost orig = posts@;
    let n = posts.len();
    let mut posts = posts;
    let mut rev: Vec<Item> = Vec::new();
    while posts.len() > 0
        invariant
            n == orig.len(),
            posts@ == orig.subrange(0, posts@.len() as int),
            rev@.len() == n - posts@.len(),
            forall|j: int| 0 <= j < rev@.len() ==> #[trigger] rev@[j] == orig[n - 1 - j],
        decreases posts@.len(),
    {
        let it = posts.pop().unwrap();
        rev.push(it);
    }
    let mut out: Vec<SearchResult> = Vec::new();
    while rev.len() > 0
        invariant
            n == orig.len(),
            rev@.len() + out@.len() == n,
            forall|j: int| 0 <= j < rev@.len() ==> #[trigger] rev@[j] == orig[n - 1 - j],
            out@ == pending_results(orig.subrange(0, out@.len() as int)),
        decreases rev@.len(),
    {
        let it = rev.pop().unwrap();
        out.push(SearchResult { info: it, size: (0, 0), preview: PostPreview::Pending });
        assert(out@ =~= pending_results(orig.subrange(0, out@.len() as int)));
    }
    assert(orig.subrange(0, n as int) =~= orig);
    out
}

/// While previews load, every result is loaded, failed or pending, and
/// `loaded + (n - total)` results of the `n` are settled; when the search
/// completes from there, all `n` are.
pub proof fn lemma_every_result_accounted(v: SearchView, g: Generation, i: int, report: PreviewReport)
    requires
        v.wf(),
        v.status is LoadingPosts,
    ensures
        ({
            let loaded = v.status->loaded;
            let total = v.status->total;
            &&& loaded_count(v.results) + failed_count(v.results) + pending_count(v.results)
                == v.results.len()
            &&& loaded_count(v.results) + (v.results.len() - total) + pending_count(v.results)
                == v.results.len()
        }),
        ({
            let w = v.after_report(g, i, report);
            w.status == SearchStatus::Complete ==> {
                &&& loaded_count(w.results) + failed_count(w.results) == w.results.len()
                &&& pending_count(w.results) == 0
            }
        }),
{
    crate::tally::lemma_count_partition(
        v.results,
        |r: SearchResult| is_loaded(r),
        |r: SearchResult| is_failed(r),
        |r: SearchResult| is_pending(r),
    );
    let w = v.after_report(g, i, report);
    if v.accepts(g, i, report) {
        let entry = w.results[i];
        lemma_count_update(v.results, i, entry, |r: SearchResult| is_loaded(r));
        lemma_count_update(v.results, i, entry, |r: SearchResult| is_failed(r));
        lemma_count_update(v.results, i, entry, |r: SearchResult| is_pending(r));
        crate::tally::lemma_count_partition(
            w.results,
            |r: SearchResult| is_loaded(r),
            |r: SearchResult| is_failed(r),
            |r: SearchResult| is_pending(r),
        );
    }
}

/// Once a search is canceled, a report from any task started before the
/// cancellation changes nothing: the result list stays as it was.
pub proof fn lemma_superseded_report_ignored(
    v: SearchView,
    g: Generation,
    i: int,
    report: PreviewReport,
)
    requires
        g.value < v.live,
    ensures
        v.after_report(g, i, report) == v,
{
}

} // verus!
