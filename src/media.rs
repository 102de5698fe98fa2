use vstd::prelude::*;
use crate::item::Item;
use crate::text::{decimal, push_decimal, str_eq};

verus! {

/// What follows the last `.` of `s`, if there is one.
pub open spec fn extension(s: Seq<char>) -> Option<Seq<char>>
    decreases s.len(),
{
    if s.len() == 0 {
        None
    } else if s.last() == '.' {
        Some(Seq::empty())
    } else {
        match extension(s.drop_last()) {
            Some(e) => Some(e.push(s.last())),
            None => None,
        }
    }
}

/// Animated and video formats, which this pipeline does not handle.
pub open spec fn excluded_extension(e: Seq<char>) -> bool {
    e == seq!['m', 'p', '4'] || e == seq!['f', 'l', 'v'] || e == seq!['o', 'g', 'g'] || e
        == seq!['w', 'e', 'b', 'm'] || e == seq!['g', 'i', 'f']
}

/// Whether a resource can be fetched at all.
#[derive(Debug, Clone, Copy, PartialEq, Eq, Structural)]
pub enum ResourceStatus {
    Ready,
    /// The item has no resource URL.
    MissingUrl,
    /// The URL names an excluded media kind.
    Unsupported,
}

pub open spec fn status_of_url(url: Option<Seq<char>>) -> ResourceStatus {
    match url {
        None => ResourceStatus::MissingUrl,
        Some(u) => match extension(u) {
            Some(e) if excluded_extension(e) => ResourceStatus::Unsupported,
            _ => ResourceStatus::Ready,
        },
    }
}

pub open spec fn url_view(url: Option<String>) -> Option<Seq<char>> {
    match url {
        Some(u) => Some(u@),
        None => None,
    }
}

/// The file name a full download of item `id` is saved under: the id,
/// followed by the URL's extension where it has one.
pub open spec fn image_file_name_of(id: u64, url: Seq<char>) -> Seq<char> {
    match extension(url) {
        Some(e) => decimal(id as nat).push('.') + e,
        None => decimal(id as nat),
    }
}

/// The name of the sidecar file that holds an item's tags.
pub open spec fn tag_file_name_of(id: u64) -> Seq<char> {
    decimal(id as nat) + seq!['.', 't', 'x', 't']
}

/// What follows the last `.` of `url`.
pub fn media_extension(url: &str) -> (r: Option<String>)
    ensures
        match r {
            Some(e) => extension(url@) == Some(e@),
            None => extension(url@) is None,
        },
{
    let n = url.unicode_len();
    let mut last: Option<usize> = None;
    let mut i: usize = 0;
    while i < n
        invariant
            n == url@.len(),
            i <= n,
            match last {
                Some(j) => j < i && extension(url@.subrange(0, i as int)) == Some(
                    url@.subrange(j + 1, i as int),
                ),
                None => extension(url@.subrange(0, i as int)) is None,
            },
        decreases n - i,
    {
        let ghost t = url@.subrange(0, i + 1);
        assert(t.drop_last() =~= url@.subrange(0, i as int));
        if url.get_char(i) == '.' {
            last = Some(i);
            assert(url@.subrange(i + 1, i + 1) =~= Seq::<char>::empty());
        } else {
            proof {
                if let Some(j) = last {
                    assert(url@.subrange(j + 1, i as int).push(url@[i as int]) =~= url@.subrange(
                        j + 1,
                        i + 1,
                    ));
                }
            }
        }
        i = i + 1;
    }
    assert(url@.subrange(0, n as int) =~= url@);
    match last {
        Some(j) => Some(url.substring_char(j + 1, n).to_owned()),
        None => None,
    }
}

/// Whether an extension names an excluded media kind.
pub fn is_excluded_extension(e: &str) -> (r: bool)
    ensures
        r == excluded_extension(e@),
{
    proof {
        reveal_strlit("mp4");
        reveal_strlit("flv");
        reveal_strlit("ogg");
        reveal_strlit("webm");
        reveal_strlit("gif");
    }
    let r = str_eq(e, "mp4") || str_eq(e, "flv") || str_eq(e, "ogg") || str_eq(e, "webm")
        || str_eq(e, "gif");
    assert("mp4"@ =~= seq!['m', 'p', '4']);
    assert("flv"@ =~= seq!['f', 'l', 'v']);
    assert("ogg"@ =~= seq!['o', 'g', 'g']);
    assert("webm"@ =~= seq!['w', 'e', 'b', 'm']);
    assert("gif"@ =~= seq!['g', 'i', 'f']);
    r
}

/// Whether the resource behind `url` can be fetched.
pub fn url_status(url: &Option<String>) -> (r: ResourceStatus)
    ensures
        r == status_of_url(url_view(*url)),
{
    match url {
        None => ResourceStatus::MissingUrl,
        Some(u) => match media_extension(u.as_str()) {
            Some(e) => if is_excluded_extension(e.as_str()) {
                ResourceStatus::Unsupported
            } else {
                ResourceStatus::Ready
            },
            None => ResourceStatus::Ready,
        },
    }
}

/// Whether the item's resource can be fetched.
pub fn resource_status(item: &Item) -> (r: ResourceStatus)
    ensures
        r == status_of_url(url_view(item.resource_url)),
{
    url_status(&item.resource_url)
}

/// The file name a full download of item `id` from `url` is saved under.
pub fn image_file_name(id: u64, url: &str) -> (r: String)
    ensures
        r@ == image_file_name_of(id, url@),
{
    let mut out = String::new();
    push_decimal(&mut out, id);
    match media_extension(url) {
        Some(e) => {
            crate::text::push_char(&mut out, '.');
            out.append(e.as_str());
        },
        None => {},
    }
    assert(out@ =~= image_file_name_of(id, url@));
    out
}

/// The name of the sidecar tag file of item `id`.
pub fn tag_file_name(id: u64) -> (r: String)
    ensures
        r@ == tag_file_name_of(id),
{
    let mut out = String::new();
    push_decimal(&mut out, id);
    out.append(".txt");
    proof {
        reveal_strlit(".txt");
    }
    assert(out@ =~= tag_file_name_of(id));
    out
}

} // verus!
