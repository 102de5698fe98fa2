use vstd::prelude::*;
use crate::generation::{Generation, GenerationCounter};
use crate::search::PostPreview;

verus! {

/// What the viewer shows of the opened item.
#[derive(Debug)]
pub enum PostImage {
    /// The full image is being fetched and no thumbnail is at hand.
    Pending,
    /// Neither the full image nor a thumbnail could be had.
    Missing,
    /// The full image.
    Loaded(Vec<u8>),
    /// Only the thumbnail: the full image is being fetched, or failed.
    PreviewOnly(Vec<u8>),
}

/// Which result the viewer has open, if any.
#[derive(Debug)]
pub enum PostViewerContext {
    Closed,
    Open { index: usize, image: PostImage, generation: Generation },
}

/// The full-size viewer of one search result. Each opening fetches the
/// full image under a fresh generation, so a fetch that finishes after the
/// viewer was closed or reopened is dropped.
#[derive(Debug)]
pub struct PostViewer {
    pub context: PostViewerContext,
    pub generations: GenerationCounter,
}

fn copy_bytes(v: &Vec<u8>) -> (r: Vec<u8>)
    ensures
        r@ == v@,
{
    let mut out: Vec<u8> = Vec::new();
    let mut i: usize = 0;
    while i < v.len()
        invariant
            i <= v.len(),
            out@ == v@.subrange(0, i as int),
        decreases v.len() - i,
    {
        out.push(v[i]);
        i = i + 1;
        assert(out@ =~= v@.subrange(0, i as int));
    }
    assert(v@.subrange(0, v.len() as int) =~= v@);
    out
}

/// What the viewer shows while the full image is fetched: the thumbnail
/// where there is one.
pub fn initial_image(preview: &PostPreview) -> (r: PostImage)
    ensures
        match *preview {
            PostPreview::Loaded(h) => r matches PostImage::PreviewOnly(x) && x@ == h@,
            _ => r is Pending,
        },
{
    match preview {
        PostPreview::Loaded(h) => PostImage::PreviewOnly(copy_bytes(h)),
        _ => PostImage::Pending,
    }
}

/// What the viewer shows once the fetch is over: the full image, else the
/// thumbnail, else nothing.
pub fn image_after_fetch(fetched: Option<Vec<u8>>, preview: &PostPreview) -> (r: PostImage)
    ensures
        match fetched {
            Some(b) => r matches PostImage::Loaded(x) && x@ == b@,
            None => match *preview {
                PostPreview::Loaded(h) => r matches PostImage::PreviewOnly(x) && x@ == h@,
                _ => r is Missing,
            },
        },
{
    match fetched {
        Some(b) => PostImage::Loaded(b),
        None => match preview {
            PostPreview::Loaded(h) => PostImage::PreviewOnly(copy_bytes(h)),
            _ => PostImage::Missing,
        },
    }
}

impl PostViewer {
    pub fn new() -> (r: PostViewer)
        ensures
            r.context is Closed,
            r.generations.live() == 0,
    {
        PostViewer { context: PostViewerContext::Closed, generations: GenerationCounter::new() }
    }

    /// Opens result `index`, showing `image` until the full image arrives;
    /// returns the generation the fetch of the full image belongs to.
    pub fn opened(&mut self, index: usize, image: PostImage) -> (r: Generation)
        requires
            old(self).generations.live() < u64::MAX,
        ensures
            final(self).generations.live() == old(self).generations.live() + 1,
            r.value == final(self).generations.live(),
            final(self).context == (PostViewerContext::Open { index, image, generation: r }),
    {
        let g = self.generations.new_generation();
        self.context = PostViewerContext::Open { index, image, generation: g };
        g
    }

    /// Takes the image the fetch started under `g` produced. It is shown
    /// only if that fetch belongs to the opening the viewer still shows.
    pub fn loaded(&mut self, g: Generation, image: PostImage) -> (r: bool)
        ensures
            final(self).generations == old(self).generations,
            r == (old(self).context matches PostViewerContext::Open { generation, .. }
                && generation == g),
            r ==> final(self).context == (PostViewerContext::Open {
                index: old(self).context->index,
                image,
                generation: g,
            }),
            !r ==> final(self).context == old(self).context,
    {
        let (index, current) = match &self.context {
            PostViewerContext::Open { index, generation, .. } => (*index, *generation == g),
            PostViewerContext::Closed => return false,
        };
        if current {
            self.context = PostViewerContext::Open { index, image, generation: g };
        }
        current
    }

    /// Closes the viewer; a fetch still running is dropped when it ends.
    pub fn closed(&mut self)
        ensures
            final(self).context is Closed,
            final(self).generations == old(self).generations,
    {
        self.context = PostViewerContext::Closed;
    }
}

} // verus!
