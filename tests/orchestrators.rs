use philia_engine::download::{DownloadContext, DownloadProgress, DownloadState, ReportEffect};
use philia_engine::fetch::{FetchAction, FetchEvent, FetchMode, FetchOutcome, FetchTask};
use philia_engine::generation::GenerationCounter;
use philia_engine::item::{Item, Tags};
use philia_engine::media::resource_status;
use philia_engine::search::{PostPreview, PreviewReport, SearchContext, SearchStatus, Sorting};

fn item(id: u64, url: Option<&str>) -> Item {
    Item { id, resource_url: url.map(|u| u.to_string()), tags: Tags::All(vec![]) }
}

#[test]
fn generations_are_fresh() {
    let mut c = GenerationCounter::new();
    let g0 = c.current();
    let g1 = c.new_generation();
    assert_ne!(g0, g1);
    assert!(c.is_current(g1));
    assert!(!c.is_current(g0));
    let g2 = c.new_generation();
    assert!(!c.is_current(g1));
    assert!(c.is_current(g2));
}

#[test]
fn search_parameters_are_clamped() {
    let mut s = SearchContext::new();
    assert_eq!(s.page, 1);
    assert_eq!(s.per_page, 16);
    s.page_changed(0);
    assert_eq!(s.page, 1);
    s.page_changed(7);
    assert_eq!(s.page, 7);
    s.per_page_changed(0);
    assert_eq!(s.per_page, 1);
    s.per_page_changed(1000);
    assert_eq!(s.per_page, 320);
    s.per_page_changed(40);
    assert_eq!(s.per_page, 40);
    s.sorting_changed(Sorting::ScoreAsc);
    assert_eq!(s.sorting, Sorting::ScoreAsc);
}

#[test]
fn search_query_excludes_animated() {
    let mut s = SearchContext::new();
    s.set_tags(vec!["cat".to_string()], vec!["dog".to_string()]);
    s.page_changed(3);
    let (g, q) = s.request_search();
    assert!(s.generations.is_current(g));
    assert_eq!(s.status, SearchStatus::Searching);
    assert_eq!(q.required, vec!["cat".to_string()]);
    assert_eq!(q.excluded, vec!["animated".to_string(), "dog".to_string()]);
    assert_eq!(q.page, 3);
    assert_eq!(q.limit, 16);
    assert_eq!(q.order, Sorting::Date);
}

#[test]
fn tag_selector_moves_tags_between_lists() {
    let mut s = SearchContext::new();
    s.tag_included("a".to_string());
    s.tag_included("b".to_string());
    s.tag_included("a".to_string());
    assert_eq!(s.required, vec!["b".to_string(), "a".to_string()]);
    s.tag_excluded("b".to_string());
    assert_eq!(s.required, vec!["a".to_string()]);
    assert_eq!(s.excluded, vec!["b".to_string()]);
    s.tag_ignored("b");
    s.tag_ignored("a");
    assert!(s.required.is_empty());
    assert!(s.excluded.is_empty());
}

#[test]
fn empty_search_completes_at_once() {
    let mut s = SearchContext::new();
    let (g, _) = s.request_search();
    assert_eq!(s.search_returned(g, vec![]), 0);
    assert_eq!(s.status, SearchStatus::Complete);
}

fn run_preview(url: &Option<String>, current: bool) -> FetchOutcome {
    let mut t = FetchTask::new(FetchMode::Preview);
    let resource = philia_engine::media::url_status(url);
    match t.step(FetchEvent::Started { current, resource, destination_exists: false, cached: false }) {
        FetchAction::Finish(o) => return o,
        a => assert_eq!(a, FetchAction::Fetch),
    }
    assert_eq!(t.step(FetchEvent::Fetched { current }), FetchAction::Process);
    match t.step(FetchEvent::Processed { ok: true, current, destination_exists: false }) {
        FetchAction::Finish(o) => o,
        a => panic!("unexpected {:?}", a),
    }
}

#[test]
fn three_results_one_without_url() {
    let mut s = SearchContext::new();
    let (g, _) = s.request_search();
    let posts = vec![
        item(10, Some("http://x/a.png")),
        item(11, None),
        item(12, Some("http://x/c.jpg")),
    ];
    assert_eq!(s.search_returned(g, posts), 3);
    assert_eq!(s.status, SearchStatus::LoadingPosts { loaded: 0, total: 3 });
    assert_eq!(s.results[1].info.id, 11);
    for i in [2usize, 1, 0] {
        let url = s.results[i].info.resource_url.clone();
        let report = match run_preview(&url, true) {
            FetchOutcome::Success => PreviewReport::Loaded { size: (512, 300), data: vec![1, 2, 3] },
            FetchOutcome::PermanentFailure => PreviewReport::Failed,
            FetchOutcome::Canceled => PreviewReport::Canceled,
        };
        assert!(s.preview_finished(g, i, report));
    }
    assert_eq!(s.status, SearchStatus::Complete);
    assert!(matches!(s.results[1].preview, PostPreview::Failed));
    assert!(matches!(s.results[0].preview, PostPreview::Loaded(_)));
    assert!(matches!(s.results[2].preview, PostPreview::Loaded(_)));
    assert_eq!(s.results[0].size, (512, 300));
}

#[test]
fn progress_counts_before_completion() {
    let mut s = SearchContext::new();
    let (g, _) = s.request_search();
    s.search_returned(g, vec![item(1, Some("u.png")), item(2, None), item(3, Some("w.png"))]);
    assert!(s.preview_finished(g, 0, PreviewReport::Loaded { size: (1, 1), data: vec![] }));
    assert!(s.preview_finished(g, 1, PreviewReport::Failed));
    assert_eq!(s.status, SearchStatus::LoadingPosts { loaded: 1, total: 2 });
    // a second report for a settled result is not counted again
    assert!(!s.preview_finished(g, 0, PreviewReport::Failed));
    assert!(!s.preview_finished(g, 9, PreviewReport::Failed));
    assert_eq!(s.status, SearchStatus::LoadingPosts { loaded: 1, total: 2 });
    assert!(s.preview_finished(g, 2, PreviewReport::Loaded { size: (1, 1), data: vec![] }));
    assert_eq!(s.status, SearchStatus::Complete);
}

#[test]
fn all_previews_failing_completes() {
    let mut s = SearchContext::new();
    let (g, _) = s.request_search();
    s.search_returned(g, vec![item(1, None), item(2, None)]);
    assert!(s.preview_finished(g, 0, PreviewReport::Failed));
    assert!(s.preview_finished(g, 1, PreviewReport::Failed));
    assert_eq!(s.status, SearchStatus::Complete);
}

#[test]
fn canceled_search_ignores_late_reports() {
    let mut s = SearchContext::new();
    let (g, _) = s.request_search();
    s.search_returned(g, vec![item(1, Some("a.png")), item(2, Some("b.png"))]);
    s.cancel_search();
    assert_eq!(s.status, SearchStatus::Complete);
    assert!(!s.preview_finished(g, 0, PreviewReport::Loaded { size: (1, 1), data: vec![9] }));
    assert!(matches!(s.results[0].preview, PostPreview::Pending));
    assert_eq!(run_preview(&Some("a.png".to_string()), false), FetchOutcome::Canceled);
    assert_eq!(s.status, SearchStatus::Complete);
}

#[test]
fn superseded_search_answer_is_dropped() {
    let mut s = SearchContext::new();
    let (g1, _) = s.request_search();
    let (g2, _) = s.request_search();
    assert_eq!(s.search_returned(g1, vec![item(1, Some("a.png"))]), 0);
    assert!(s.results.is_empty());
    assert_eq!(s.status, SearchStatus::Searching);
    assert_eq!(s.search_returned(g2, vec![item(2, Some("b.png"))]), 1);
    assert_eq!(s.results[0].info.id, 2);
}

#[test]
fn download_batch_canceled_midway() {
    let mut d = DownloadContext::new();
    let g = d.request_download(5);
    assert_eq!(d.progress, DownloadProgress::DownloadingPosts { downloaded: 0, total: 5 });
    assert_eq!(d.image_downloaded(g, 0, FetchOutcome::Success), ReportEffect::Counted);
    assert_eq!(d.image_downloaded(g, 1, FetchOutcome::Success), ReportEffect::Counted);
    assert_eq!(d.progress, DownloadProgress::DownloadingPosts { downloaded: 2, total: 5 });
    d.cancel_download();
    assert_eq!(d.progress, DownloadProgress::Complete);
    for i in 2..5 {
        // the remaining tasks see the cancellation at their next checkpoint
        let mut t = FetchTask::new(FetchMode::FullDownload);
        t.step(FetchEvent::Started {
            current: true,
            resource: philia_engine::media::ResourceStatus::Ready,
            destination_exists: false,
            cached: false,
        });
        t.step(FetchEvent::Fetched { current: true });
        let a = t.step(FetchEvent::Processed { ok: true, current: d.generations.is_current(g), destination_exists: false });
        assert_eq!(a, FetchAction::Finish(FetchOutcome::Canceled));
        assert_eq!(d.image_downloaded(g, i, FetchOutcome::Success), ReportEffect::Ignored);
    }
    assert_eq!(d.progress, DownloadProgress::Complete);
    assert_eq!(d.states[..2], [DownloadState::Downloaded, DownloadState::Downloaded]);
    assert_eq!(d.states[2..], [DownloadState::Pending; 3]);
}

#[test]
fn existing_file_counts_as_downloaded() {
    let mut d = DownloadContext::new();
    let g = d.request_download(2);
    let it = item(5, Some("http://x/5.png"));
    let mut t = FetchTask::new(FetchMode::FullDownload);
    let a = t.step(FetchEvent::Started {
        current: d.generations.is_current(g),
        resource: resource_status(&it),
        destination_exists: true,
        cached: false,
    });
    assert_eq!(a, FetchAction::Finish(FetchOutcome::Success));
    assert_eq!(d.image_downloaded(g, 0, FetchOutcome::Success), ReportEffect::Counted);
    assert_eq!(d.progress, DownloadProgress::DownloadingPosts { downloaded: 1, total: 2 });
}

#[test]
fn download_failures_lower_total() {
    let mut d = DownloadContext::new();
    let g = d.request_download(3);
    assert_eq!(d.image_downloaded(g, 0, FetchOutcome::PermanentFailure), ReportEffect::Counted);
    assert_eq!(d.progress, DownloadProgress::DownloadingPosts { downloaded: 0, total: 2 });
    assert_eq!(d.image_downloaded(g, 1, FetchOutcome::Canceled), ReportEffect::Ignored);
    assert_eq!(d.image_downloaded(g, 1, FetchOutcome::Success), ReportEffect::Counted);
    assert_eq!(d.image_downloaded(g, 1, FetchOutcome::Success), ReportEffect::Ignored);
    assert_eq!(d.image_downloaded(g, 2, FetchOutcome::Success), ReportEffect::Completed);
    assert_eq!(d.progress, DownloadProgress::Complete);
}

#[test]
fn empty_download_batch_is_complete() {
    let mut d = DownloadContext::new();
    let g = d.request_download(0);
    assert_eq!(d.progress, DownloadProgress::Complete);
    assert_eq!(d.image_downloaded(g, 0, FetchOutcome::Success), ReportEffect::Ignored);
}

#[test]
fn new_batch_ignores_old_batch_reports() {
    let mut d = DownloadContext::new();
    let g1 = d.request_download(2);
    let g2 = d.request_download(2);
    assert_eq!(d.image_downloaded(g1, 0, FetchOutcome::Success), ReportEffect::Ignored);
    assert_eq!(d.image_downloaded(g2, 0, FetchOutcome::Success), ReportEffect::Counted);
}

#[test]
fn canceled_report_under_live_generation_changes_nothing() {
    let mut s = SearchContext::new();
    let (g, _) = s.request_search();
    s.search_returned(g, vec![item(1, Some("a.png"))]);
    assert!(!s.preview_finished(g, 0, PreviewReport::Canceled));
    assert!(matches!(s.results[0].preview, PostPreview::Pending));
    assert_eq!(s.status, SearchStatus::LoadingPosts { loaded: 0, total: 1 });
}
