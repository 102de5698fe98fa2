use philia_engine::search::PostPreview;
use philia_engine::viewer::{image_after_fetch, initial_image, PostImage, PostViewer, PostViewerContext};

#[test]
fn viewer_shows_thumbnail_then_full_image() {
    let preview = PostPreview::Loaded(vec![1, 2]);
    let mut v = PostViewer::new();
    let g = v.opened(4, initial_image(&preview));
    assert!(matches!(&v.context, PostViewerContext::Open { index: 4, image: PostImage::PreviewOnly(b), .. } if b == &vec![1, 2]));
    assert!(v.loaded(g, image_after_fetch(Some(vec![9, 9, 9]), &preview)));
    assert!(matches!(&v.context, PostViewerContext::Open { image: PostImage::Loaded(b), .. } if b == &vec![9, 9, 9]));
}

#[test]
fn viewer_falls_back_when_fetch_fails() {
    assert!(matches!(image_after_fetch(None, &PostPreview::Loaded(vec![7])), PostImage::PreviewOnly(b) if b == vec![7]));
    assert!(matches!(image_after_fetch(None, &PostPreview::Failed), PostImage::Missing));
    assert!(matches!(initial_image(&PostPreview::Pending), PostImage::Pending));
}

#[test]
fn viewer_drops_stale_fetch() {
    let mut v = PostViewer::new();
    let g1 = v.opened(0, PostImage::Pending);
    let g2 = v.opened(1, PostImage::Pending);
    assert!(!v.loaded(g1, PostImage::Loaded(vec![1])));
    assert!(matches!(&v.context, PostViewerContext::Open { index: 1, image: PostImage::Pending, .. }));
    v.closed();
    assert!(!v.loaded(g2, PostImage::Loaded(vec![2])));
    assert!(matches!(v.context, PostViewerContext::Closed));
}
