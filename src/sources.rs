use vstd::prelude::*;
use std::cmp::Ordering;

verus! {

/// What a catalog source offers.
#[derive(Debug, Clone)]
pub struct SourceInfo {
    pub name: String,
    /// Whether the source can be searched.
    pub search: bool,
    /// Whether the source can list its tags.
    pub tag_list: bool,
}

pub open spec fn is_negated(t: Seq<char>) -> bool {
    t.len() > 0 && t[0] == '-'
}

/// The tags a query requires: those not written with a leading `-`.
pub open spec fn required_of(tags: Seq<Seq<char>>) -> Seq<Seq<char>>
    decreases tags.len(),
{
    if tags.len() == 0 {
        Seq::empty()
    } else {
        required_of(tags.drop_last()) + if is_negated(tags.last()) {
            Seq::empty()
        } else {
            seq![tags.last()]
        }
    }
}

/// The tags a query excludes: those written with a leading `-`, without it.
pub open spec fn excluded_of(tags: Seq<Seq<char>>) -> Seq<Seq<char>>
    decreases tags.len(),
{
    if tags.len() == 0 {
        Seq::empty()
    } else {
        excluded_of(tags.drop_last()) + if is_negated(tags.last()) {
            seq![tags.last().drop_first()]
        } else {
            Seq::empty()
        }
    }
}

pub open spec fn views(v: Seq<String>) -> Seq<Seq<char>> {
    v.map_values(|t: String| t@)
}

/// Splits query tags into those required and those excluded; a leading `-`
/// marks an excluded tag.
pub fn split_tags(tags: &Vec<String>) -> (r: (Vec<String>, Vec<String>))
    ensures
        views(r.0@) == required_of(views(tags@)),
        views(r.1@) == excluded_of(views(tags@)),
{
    let mut required: Vec<String> = Vec::new();
    let mut excluded: Vec<String> = Vec::new();
    let mut i: usize = 0;
    while i < tags.len()
        invariant
            i <= tags.len(),
            views(required@) == required_of(views(tags@.subrange(0, i as int))),
            views(excluded@) == excluded_of(views(tags@.subrange(0, i as int))),
        decreases tags.len() - i,
    {
        let ghost pre = views(tags@.subrange(0, i as int));
        let ghost cur = views(tags@.subrange(0, i + 1));
        proof {
            assert(cur.drop_last() =~= pre);
            assert(cur.last() == tags@[i as int]@);
        }
        let ghost r0 = views(required@);
        let ghost e0 = views(excluded@);
        let t = tags[i].as_str();
        let n = t.unicode_len();
        if n > 0 && t.get_char(0) == '-' {
            excluded.push(t.substring_char(1, n).to_owned());
            assert(views(excluded@) =~= e0.push(t@.drop_first()));
            assert(views(required@) =~= r0 + Seq::<Seq<char>>::empty());
        } else {
            required.push(tags[i].clone());
            assert(views(required@) =~= r0.push(t@));
            assert(views(excluded@) =~= e0 + Seq::<Seq<char>>::empty());
        }
        i = i + 1;
    }
    assert(tags@.subrange(0, tags.len() as int) =~= tags@);
    (required, excluded)
}

/// Code-point order on strings, the order `str` compares by.
pub open spec fn lex_cmp(a: Seq<char>, b: Seq<char>) -> Ordering
    decreases a.len(),
{
    if a.len() == 0 {
        if b.len() == 0 {
            Ordering::Equal
        } else {
            Ordering::Less
        }
    } else if b.len() == 0 {
        Ordering::Greater
    } else if (a[0] as u32) < (b[0] as u32) {
        Ordering::Less
    } else if (a[0] as u32) > (b[0] as u32) {
        Ordering::Greater
    } else {
        lex_cmp(a.drop_first(), b.drop_first())
    }
}

pub proof fn lemma_lex_equal(a: Seq<char>, b: Seq<char>)
    ensures
        (lex_cmp(a, b) == Ordering::Equal) == (a == b),
    decreases a.len(),
{
    if a.len() > 0 && b.len() > 0 {
        lemma_lex_equal(a.drop_first(), b.drop_first());
        if (a[0] as u32) == (b[0] as u32) {
            vstd::utf8::char_u32_cast(a[0], a[0] as u32);
            vstd::utf8::char_u32_cast(b[0], b[0] as u32);
            assert(a[0] == b[0]);
            if a.drop_first() == b.drop_first() {
                assert(a =~= seq![a[0]] + a.drop_first());
                assert(b =~= seq![b[0]] + b.drop_first());
            }
        }
        if a == b {
            assert(a.drop_first() == b.drop_first());
        }
    } else if a.len() == 0 && b.len() == 0 {
        assert(a =~= b);
    }
}

pub proof fn lemma_lex_flip(a: Seq<char>, b: Seq<char>)
    ensures
        (lex_cmp(a, b) == Ordering::Less) == (lex_cmp(b, a) == Ordering::Greater),
    decreases a.len(),
{
    if a.len() > 0 && b.len() > 0 {
        lemma_lex_flip(a.drop_first(), b.drop_first());
    }
}

pub proof fn lemma_lex_transitive(a: Seq<char>, b: Seq<char>, c: Seq<char>)
    requires
        lex_cmp(a, b) == Ordering::Less,
        lex_cmp(b, c) == Ordering::Less,
    ensures
        lex_cmp(a, c) == Ordering::Less,
    decreases a.len(),
{
    if a.len() > 0 && b.len() > 0 && c.len() > 0 {
        if (a[0] as u32) == (b[0] as u32) && (b[0] as u32) == (c[0] as u32) {
            lemma_lex_transitive(a.drop_first(), b.drop_first(), c.drop_first());
        }
    }
}

/// Compares two strings in code-point order.
pub fn compare_text(a: &str, b: &str) -> (r: Ordering)
    ensures
        r == lex_cmp(a@, b@),
{
    let n = a.unicode_len();
    let m = b.unicode_len();
    let mut i: usize = 0;
    assert(a@.subrange(0, n as int) =~= a@);
    assert(b@.subrange(0, m as int) =~= b@);
    while i < n && i < m
        invariant
            n == a@.len(),
            m == b@.len(),
            i <= n,
            i <= m,
            lex_cmp(a@, b@) == lex_cmp(a@.subrange(i as int, n as int), b@.subrange(i as int, m as int)),
        decreases n - i,
    {
        let x = a.get_char(i) as u32;
        let y = b.get_char(i) as u32;
        let ghost sa = a@.subrange(i as int, n as int);
        let ghost sb = b@.subrange(i as int, m as int);
        assert(sa[0] == a@[i as int]);
        assert(sb[0] == b@[i as int]);
        if x < y {
            return Ordering::Less;
        }
        if x > y {
            return Ordering::Greater;
        }
        assert(sa.drop_first() =~= a@.subrange(i + 1, n as int));
        assert(sb.drop_first() =~= b@.subrange(i + 1, m as int));
        i = i + 1;
    }
    let ghost sa = a@.subrange(i as int, n as int);
    let ghost sb = b@.subrange(i as int, m as int);
    if i < n {
        Ordering::Greater
    } else if i < m {
        Ordering::Less
    } else {
        Ordering::Equal
    }
}

/// What `char::is_alphabetic` says of a character.
pub uninterp spec fn alphabetic(c: char) -> bool;

/// Relies on `char::is_alphabetic`: whether the character has the Unicode
/// Alphabetic property.
#[verifier::external_body]
fn is_alphabetic(c: char) -> (r: bool)
    ensures
        r == alphabetic(c),
{
    c.is_alphabetic()
}

/// The key a tag sorts by: the tag itself when it starts with a letter,
/// else `z`, so that such tags go with the last letter.
pub open spec fn sort_key(t: Seq<char>, starts_alphabetic: bool) -> Seq<char> {
    if t.len() > 0 && starts_alphabetic {
        t
    } else {
        seq!['z']
    }
}

/// Compares two tags by their sort keys, given whether each starts with an
/// alphabetic character.
pub fn compare_tag_keys(a: &str, a_alpha: bool, b: &str, b_alpha: bool) -> (r: Ordering)
    ensures
        r == lex_cmp(sort_key(a@, a_alpha), sort_key(b@, b_alpha)),
{
    proof {
        reveal_strlit("z");
        assert("z"@ =~= seq!['z']);
    }
    let ka = if a.unicode_len() > 0 && a_alpha {
        a
    } else {
        "z"
    };
    let kb = if b.unicode_len() > 0 && b_alpha {
        b
    } else {
        "z"
    };
    compare_text(ka, kb)
}

pub open spec fn starts_alphabetic(t: Seq<char>) -> bool {
    t.len() > 0 && alphabetic(t[0])
}

/// The order tag lists are shown in: alphabetically, with tags that do not
/// start with a letter sorted as if they were `z`.
pub fn sort_tags(a: &String, b: &String) -> (r: Ordering)
    ensures
        r == lex_cmp(
            sort_key(a@, starts_alphabetic(a@)),
            sort_key(b@, starts_alphabetic(b@)),
        ),
{
    let a_alpha = a.as_str().unicode_len() > 0 && is_alphabetic(a.as_str().get_char(0));
    let b_alpha = b.as_str().unicode_len() > 0 && is_alphabetic(b.as_str().get_char(0));
    compare_tag_keys(a.as_str(), a_alpha, b.as_str(), b_alpha)
}

/// How many tags the selector shows while nothing is typed.
pub const DEFAULT_SHOWN_TAGS: usize = 50;

pub open spec fn is_prefix(p: Seq<char>, t: Seq<char>) -> bool {
    p.len() <= t.len() && t.subrange(0, p.len() as int) == p
}

/// The tags of `available` that start with `search`, in order.
pub open spec fn matching_tags(available: Seq<Seq<char>>, search: Seq<char>) -> Seq<Seq<char>>
    decreases available.len(),
{
    if available.len() == 0 {
        Seq::empty()
    } else {
        matching_tags(available.drop_last(), search) + if is_prefix(search, available.last()) {
            seq![available.last()]
        } else {
            Seq::empty()
        }
    }
}

/// The tags the selector shows: the first `DEFAULT_SHOWN_TAGS` while the
/// search is empty, else every tag that starts with the search.
pub open spec fn shown_tags_of(available: Seq<Seq<char>>, search: Seq<char>) -> Seq<Seq<char>> {
    if search.len() == 0 {
        available.take(if available.len() < DEFAULT_SHOWN_TAGS {
            available.len() as int
        } else {
            DEFAULT_SHOWN_TAGS as int
        })
    } else {
        matching_tags(available, search)
    }
}

/// Whether `t` starts with `p`.
pub fn starts_with(t: &str, p: &str) -> (r: bool)
    ensures
        r == is_prefix(p@, t@),
{
    let n = p.unicode_len();
    if n > t.unicode_len() {
        return false;
    }
    let mut i: usize = 0;
    while i < n
        invariant
            n == p@.len(),
            n <= t@.len(),
            i <= n,
            forall|j: int| 0 <= j < i ==> p@[j] == t@[j],
        decreases n - i,
    {
        if p.get_char(i) != t.get_char(i) {
            return false;
        }
        i = i + 1;
    }
    assert(t@.subrange(0, n as int) =~= p@);
    true
}

/// The tags the tag selector shows for a search.
pub fn shown_tags(available: &Vec<String>, search: &str) -> (r: Vec<String>)
    ensures
        views(r@) == shown_tags_of(views(available@), search@),
{
    let mut out: Vec<String> = Vec::new();
    let ghost av = views(available@);
    if search.unicode_len() == 0 {
        let k = if available.len() < DEFAULT_SHOWN_TAGS {
            available.len()
        } else {
            DEFAULT_SHOWN_TAGS
        };
        let mut i: usize = 0;
        while i < k
            invariant
                k <= available.len(),
                i <= k,
                av == views(available@),
                views(out@) == av.take(i as int),
            decreases k - i,
        {
            let ghost before = views(out@);
            out.push(available[i].clone());
            assert(views(out@) =~= before.push(av[i as int]));
            i = i + 1;
            assert(views(out@) =~= av.take(i as int));
        }
    } else {
        let mut i: usize = 0;
        while i < available.len()
            invariant
                i <= available.len(),
                av == views(available@),
                views(out@) == matching_tags(av.take(i as int), search@),
            decreases available.len() - i,
        {
            proof {
                assert(av.take(i + 1).drop_last() =~= av.take(i as int));
            }
            let ghost before = views(out@);
            if starts_with(available[i].as_str(), search) {
                out.push(available[i].clone());
                assert(views(out@) =~= before.push(av[i as int]));
            } else {
                assert(before + Seq::<Seq<char>>::empty() =~= before);
            }
            i = i + 1;
        }
        assert(av.take(available.len() as int) =~= av);
    }
    out
}

/// The most pages of a catalog's tag list that are fetched.
pub const TAG_LIST_PAGES: u32 = 24;

/// How many tags one page of a tag list holds.
pub const TAG_LIST_PAGE_SIZE: u32 = 1000;

/// What the runner of a tag-list download does next.
#[derive(Debug, Clone, Copy, PartialEq, Eq, Structural)]
pub enum TagListStep {
    /// Fetch this page (counted from one) and report its tag names.
    FetchPage(u32),
    Done,
}

/// Fetches a catalog's tag list page by page, from the first, until a page
/// comes back empty or `TAG_LIST_PAGES` pages have been fetched.
#[derive(Debug)]
pub struct TagListDownload {
    pub next_page: u32,
    pub tags: Vec<String>,
    pub finished: bool,
}

impl TagListDownload {
    pub open spec fn wf(&self) -> bool {
        !self.finished ==> 1 <= self.next_page <= TAG_LIST_PAGES
    }

    /// A download that has fetched nothing; its first step fetches page one.
    pub fn new() -> (r: (TagListDownload, TagListStep))
        ensures
            r.0.wf(),
            !r.0.finished,
            r.0.next_page == 1,
            r.0.tags@.len() == 0,
            r.1 == TagListStep::FetchPage(1),
    {
        (TagListDownload { next_page: 1, tags: Vec::new(), finished: false }, TagListStep::FetchPage(1))
    }

    /// Takes the tag names of the page last asked for.
    pub fn page_fetched(&mut self, names: Vec<String>) -> (r: TagListStep)
        requires
            old(self).wf(),
            !old(self).finished,
        ensures
            final(self).wf(),
            if names@.len() == 0 {
                &&& final(self).finished
                &&& final(self).tags@ == old(self).tags@
                &&& r == TagListStep::Done
            } else {
                &&& final(self).tags@ == old(self).tags@ + names@
                &&& if old(self).next_page == TAG_LIST_PAGES {
                    final(self).finished && r == TagListStep::Done
                } else {
                    &&& !final(self).finished
                    &&& final(self).next_page == old(self).next_page + 1
                    &&& r == TagListStep::FetchPage((old(self).next_page + 1) as u32)
                }
            },
    {
        if names.len() == 0 {
            self.finished = true;
            return TagListStep::Done;
        }
        let mut names = names;
        self.tags.append(&mut names);
        if self.next_page == TAG_LIST_PAGES {
            self.finished = true;
            TagListStep::Done
        } else {
            self.next_page = self.next_page + 1;
            TagListStep::FetchPage(self.next_page)
        }
    }
}

} // verus!
