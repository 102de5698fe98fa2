use philia_engine::item::{Item, Tags};
use philia_engine::library::{image_categories, image_tags, insert_sorted};
use philia_engine::tags::TagSelector;
use philia_engine::sources::{TagListDownload, TagListStep, TAG_LIST_PAGES, TAG_LIST_PAGE_SIZE};

fn s(x: &str) -> String {
    x.to_string()
}

fn posts() -> Vec<Item> {
    vec![
        Item { id: 1, resource_url: None, tags: Tags::All(vec![s("cat"), s("blue_sky")]) },
        Item {
            id: 2,
            resource_url: None,
            tags: Tags::Categorized(vec![
                (s("artist"), vec![s("painter")]),
                (s("general"), vec![s("cat"), s("tree")]),
            ]),
        },
    ]
}

#[test]
fn image_tags_sorted_and_unique() {
    assert_eq!(image_tags(&posts(), &None), vec![s("blue_sky"), s("cat"), s("painter"), s("tree")]);
}

#[test]
fn image_tags_skip_ignored_categories() {
    let ignored = Some(vec![s("artist")]);
    assert_eq!(image_tags(&posts(), &ignored), vec![s("blue_sky"), s("cat"), s("tree")]);
    assert!(image_tags(&vec![], &ignored).is_empty());
}

#[test]
fn image_categories_sorted_and_unique() {
    let mut p = posts();
    p.push(Item { id: 3, resource_url: None, tags: Tags::Categorized(vec![(s("artist"), vec![]), (s("copyright"), vec![])]) });
    assert_eq!(image_categories(&p), vec![s("artist"), s("copyright"), s("general")]);
}

#[test]
fn sorted_insert_keeps_order() {
    let mut v = vec![];
    for t in ["b", "a", "c", "a", "B"] {
        insert_sorted(&mut v, s(t));
    }
    assert_eq!(v, vec![s("B"), s("a"), s("b"), s("c")]);
}

#[test]
fn tag_selector_learns_found_tags() {
    let mut sel = TagSelector::new(vec![s("cat"), s("dog")]);
    assert_eq!(sel.shown, vec![s("cat"), s("dog")]);
    sel.add_found_tags(&posts());
    assert_eq!(sel.available, vec![s("cat"), s("dog"), s("blue_sky"), s("painter"), s("tree")]);
    sel.search_changed(s("b"));
    assert_eq!(sel.shown, vec![s("blue_sky")]);
    sel.tag_created(s("bird"));
    sel.tag_created(s("bird"));
    assert_eq!(sel.available.len(), 6);
    assert_eq!(sel.shown, vec![s("blue_sky"), s("bird")]);
}

#[test]
fn tag_list_stops_on_empty_page() {
    let (mut d, first) = TagListDownload::new();
    assert_eq!(first, TagListStep::FetchPage(1));
    assert_eq!(d.page_fetched(vec![s("a"), s("b")]), TagListStep::FetchPage(2));
    assert_eq!(d.page_fetched(vec![s("c")]), TagListStep::FetchPage(3));
    assert_eq!(d.page_fetched(vec![]), TagListStep::Done);
    assert!(d.finished);
    assert_eq!(d.tags, vec![s("a"), s("b"), s("c")]);
}

#[test]
fn tag_list_stops_after_last_page() {
    let (mut d, _) = TagListDownload::new();
    for page in 1..TAG_LIST_PAGES {
        assert_eq!(d.page_fetched(vec![format!("t{}", page)]), TagListStep::FetchPage(page + 1));
    }
    assert_eq!(d.page_fetched(vec![s("last")]), TagListStep::Done);
    assert_eq!(d.tags.len(), TAG_LIST_PAGES as usize);
    assert_eq!(TAG_LIST_PAGE_SIZE, 1000);
}
