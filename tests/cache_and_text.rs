use philia_engine::datasets::{
    export_folder_name, get_tag_string, resize_plan, category_ignored, Dataset, ImageSettings,
    ResizePlan, TagSettings, TargetImageFormat, TrainingSettings,
};
use philia_engine::item::{Item, Tags};
use philia_engine::media::{image_file_name, is_excluded_extension, media_extension, tag_file_name, url_status, ResourceStatus};
use philia_engine::preview_cache::{preview_data_url, PreviewCache, DEFAULT_PREVIEW_CAPACITY};
use philia_engine::search::Sorting;
use philia_engine::settings::{Settings, SettingsMessage, TagSettings as DownloadTagSettings};
use philia_engine::sources::{shown_tags, sort_tags, split_tags};
use philia_engine::text::{decimal_string, join_strings, replaced};
use std::cmp::Ordering;

fn s(x: &str) -> String {
    x.to_string()
}

#[test]
fn cache_evicts_least_recently_used() {
    let mut c = PreviewCache::new(2);
    c.store(s("a"), 64, s("A"));
    c.store(s("b"), 64, s("B"));
    c.store(s("c"), 64, s("C"));
    assert_eq!(c.lookup(&s("a"), 64), None);
    assert_eq!(c.lookup(&s("b"), 64), Some(s("B")));
    assert_eq!(c.lookup(&s("c"), 64), Some(s("C")));
}

#[test]
fn cache_lookup_protects_entry() {
    let mut c = PreviewCache::new(2);
    c.store(s("a"), 64, s("A"));
    c.store(s("b"), 64, s("B"));
    assert_eq!(c.lookup(&s("a"), 64), Some(s("A")));
    c.store(s("c"), 64, s("C"));
    assert_eq!(c.lookup(&s("b"), 64), None);
    assert_eq!(c.lookup(&s("a"), 64), Some(s("A")));
    assert_eq!(c.lookup(&s("c"), 64), Some(s("C")));
}

#[test]
fn cache_keys_include_size() {
    let mut c = PreviewCache::with_default_capacity();
    assert_eq!(DEFAULT_PREVIEW_CAPACITY, 4096);
    c.store(s("a"), 64, s("small"));
    c.store(s("a"), 128, s("large"));
    assert_eq!(c.lookup(&s("a"), 64), Some(s("small")));
    assert_eq!(c.lookup(&s("a"), 128), Some(s("large")));
    assert_eq!(c.lookup(&s("a"), 256), None);
}

#[test]
fn cache_overwrite_keeps_one_entry() {
    let mut c = PreviewCache::new(2);
    c.store(s("a"), 1, s("A1"));
    c.store(s("a"), 1, s("A2"));
    c.store(s("b"), 1, s("B"));
    assert_eq!(c.lookup(&s("a"), 1), Some(s("A2")));
    assert_eq!(c.lookup(&s("b"), 1), Some(s("B")));
}

#[test]
fn render_failure_is_not_cached() {
    let mut c = PreviewCache::new(4);
    assert_eq!(c.finish_render(s("p"), 8, Err(s("bad"))), Err(s("bad")));
    assert_eq!(c.lookup(&s("p"), 8), None);
    assert_eq!(c.finish_render(s("p"), 8, Ok(s("data"))), Ok(s("data")));
    assert_eq!(c.lookup(&s("p"), 8), Some(s("data")));
}

#[test]
fn data_url_is_base64() {
    assert_eq!(preview_data_url(&b"hi".to_vec()), "data:image/png;base64,aGk=");
    assert_eq!(preview_data_url(&vec![]), "data:image/png;base64,");
}

#[test]
fn extensions_and_names() {
    assert_eq!(media_extension("http://h/a.b/c.webm"), Some(s("webm")));
    assert_eq!(media_extension("noext"), None);
    assert_eq!(media_extension("end."), Some(s("")));
    assert!(is_excluded_extension("gif"));
    assert!(is_excluded_extension("mp4"));
    assert!(!is_excluded_extension("png"));
    assert_eq!(url_status(&None), ResourceStatus::MissingUrl);
    assert_eq!(url_status(&Some(s("x/y.flv"))), ResourceStatus::Unsupported);
    assert_eq!(url_status(&Some(s("x/y.jpg"))), ResourceStatus::Ready);
    assert_eq!(image_file_name(42, "http://h/f.jpg"), "42.jpg");
    assert_eq!(image_file_name(7, "http://h/f"), "7");
    assert_eq!(tag_file_name(1234567890), "1234567890.txt");
    assert_eq!(decimal_string(0), "0");
    assert_eq!(decimal_string(u64::MAX), u64::MAX.to_string());
}

#[test]
fn text_helpers() {
    assert_eq!(replaced("a_b_c", '_', " "), "a b c");
    assert_eq!(join_strings(&vec![s("x"), s("y"), s("z")], ", "), "x, y, z");
    assert_eq!(join_strings(&vec![], ", "), "");
}

fn categorized() -> Item {
    Item {
        id: 3,
        resource_url: None,
        tags: Tags::Categorized(vec![
            (s("Artist"), vec![s("some_artist")]),
            (s("general"), vec![s("blue_sky"), s("cloud_(shape)"), s("skip_me")]),
        ]),
    }
}

#[test]
fn tag_string_plain() {
    let item = Item { id: 1, resource_url: None, tags: Tags::All(vec![s("a_b"), s("c_(d)")]) };
    assert_eq!(get_tag_string(&item, &TagSettings::new()), "a_b, c_(d)");
}

#[test]
fn tag_string_rewritten() {
    let mut st = TagSettings::new();
    st.remove_underscores = true;
    st.escape_parentheses = true;
    st.ignore_categories = vec![s("artist")];
    st.ignore_tags = vec![s("skip_me")];
    assert_eq!(get_tag_string(&categorized(), &st), "blue sky, cloud \\(shape\\)");
    assert!(category_ignored("artist", &st));
    assert!(!category_ignored("Artist", &st));
}

#[test]
fn tag_string_keeps_categories_in_order() {
    let st = TagSettings::new();
    assert_eq!(get_tag_string(&categorized(), &st), "some_artist, blue_sky, cloud_(shape), skip_me");
}

#[test]
fn dataset_defaults() {
    let d = Dataset::new(s("New Dataset"));
    assert_eq!(d.name, "New Dataset");
    assert!(d.images.is_empty());
    assert!(d.thumbnail.is_none());
    assert_eq!(d.settings.image.resize, (0, 0));
    assert_eq!(d.settings.image.target_format, TargetImageFormat::Png);
    assert_eq!(TargetImageFormat::Jpg.extension(), "jpeg");
    assert_eq!(TargetImageFormat::WebP.extension(), "webp");
}

#[test]
fn export_decisions() {
    let t = TrainingSettings { keyword: s("cat"), repetitions: 15 };
    assert_eq!(export_folder_name(&t), "15_cat");
    let mut im = ImageSettings { apply_letterboxing: false, resize: (0, 0), target_format: TargetImageFormat::Png };
    assert_eq!(resize_plan(&im, 100, 50), ResizePlan::Keep);
    im.resize = (64, 0);
    assert_eq!(resize_plan(&im, 100, 50), ResizePlan::Fit { width: 64, height: 50 });
    im.resize = (0, 32);
    assert_eq!(resize_plan(&im, 100, 50), ResizePlan::Fit { width: 100, height: 32 });
    im.resize = (10, 20);
    assert_eq!(resize_plan(&im, 100, 50), ResizePlan::Exact { width: 10, height: 20 });
}

#[test]
fn query_tags_split() {
    let (inc, exc) = split_tags(&vec![s("cat"), s("-dog"), s("-"), s("bird")]);
    assert_eq!(inc, vec![s("cat"), s("bird")]);
    assert_eq!(exc, vec![s("dog"), s("")]);
}

#[test]
fn tags_sort_letters_first() {
    assert_eq!(sort_tags(&s("apple"), &s("banana")), Ordering::Less);
    assert_eq!(sort_tags(&s("1girl"), &s("zebra")), Ordering::Less);
    assert_eq!(sort_tags(&s("1girl"), &s("z")), Ordering::Equal);
    assert_eq!(sort_tags(&s("zz"), &s(":)")), Ordering::Greater);
    assert_eq!(sort_tags(&s(""), &s("a")), Ordering::Greater);
    let mut v = vec![s("3d"), s("cat"), s("ant")];
    v.sort_by(sort_tags);
    assert_eq!(v, vec![s("ant"), s("cat"), s("3d")]);
}

#[test]
fn tag_selector_filter() {
    let available: Vec<String> = (0..60).map(|i| format!("t{}", i)).collect();
    assert_eq!(shown_tags(&available, "").len(), 50);
    assert_eq!(shown_tags(&available, "t5"), vec![s("t5"), s("t50"), s("t51"), s("t52"), s("t53"), s("t54"), s("t55"), s("t56"), s("t57"), s("t58"), s("t59")]);
    assert!(shown_tags(&available, "x").is_empty());
}

#[test]
fn sorting_labels() {
    let labels: Vec<String> = Sorting::all().iter().map(|o| o.label()).collect();
    assert_eq!(labels, vec![s("Newest"), s("Oldest"), s("Most liked"), s("Least liked")]);
}

#[test]
fn settings_messages() {
    let mut st = Settings::new();
    assert!(!SettingsMessage::SettingsOpened.handle(&mut st));
    assert!(st.show);
    assert!(!SettingsMessage::ToggleSaveTags(true).handle(&mut st));
    assert!(st.tag_settings.save_tags);
    assert!(!SettingsMessage::ToggleApplyLetterboxing(true).handle(&mut st));
    assert!(st.image_settings.apply_letterboxing);
    SettingsMessage::IgnoredCategoriesChanged(s("Artist, META")).handle(&mut st);
    assert_eq!(st.tag_settings.ignore_categories, "artist, meta");
    assert!(SettingsMessage::SettingsClosed.handle(&mut st));
    assert!(!st.show);
}

#[test]
fn download_tag_rules() {
    let t = DownloadTagSettings {
        save_tags: true,
        remove_underscores: true,
        escape_parentheses: false,
        ignore_categories: s("artist, meta ,"),
    };
    let rules = t.tag_rules();
    assert_eq!(rules.ignore_categories, vec![s("artist"), s("meta"), s("")]);
    assert!(rules.remove_underscores);
    assert_eq!(get_tag_string(&categorized(), &rules), "blue sky, cloud (shape), skip me");
}
