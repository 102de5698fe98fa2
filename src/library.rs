use vstd::prelude::*;
use std::cmp::Ordering;
use crate::datasets::contains_str;
use crate::datasets::contains_text;
use crate::item::{Item, Tags};
use crate::sources::{compare_text, lemma_lex_equal, lemma_lex_flip, lemma_lex_transitive, lex_cmp, views};

verus! {

/// Strictly increasing in code-point order: sorted, without repeats.
pub open spec fn sorted_set(s: Seq<Seq<char>>) -> bool {
    forall|i: int, j: int|
        0 <= i < j < s.len() ==> lex_cmp(#[trigger] s[i], #[trigger] s[j]) == Ordering::Less
}

pub proof fn lemma_concat_contains(a: Seq<Seq<char>>, b: Seq<Seq<char>>, x: Seq<char>)
    ensures
        (a + b).contains(x) == (a.contains(x) || b.contains(x)),
{
    if a.contains(x) {
        let i = choose|i: int| 0 <= i < a.len() && a[i] == x;
        assert((a + b)[i] == x);
    }
    if b.contains(x) {
        let j = choose|j: int| 0 <= j < b.len() && b[j] == x;
        assert((a + b)[a.len() + j] == x);
    }
    if (a + b).contains(x) {
        let k = choose|k: int| 0 <= k < (a + b).len() && (a + b)[k] == x;
        if k < a.len() {
            assert(a[k] == x);
        } else {
            assert(b[k - a.len()] == x);
        }
    }
}

/// Adds `t` to a sorted set of strings, keeping it sorted.
pub fn insert_sorted(v: &mut Vec<String>, t: String)
    requires
        sorted_set(views(old(v)@)),
    ensures
        sorted_set(views(final(v)@)),
        forall|x: Seq<char>|
            #[trigger] views(final(v)@).contains(x) <==> (views(old(v)@).contains(x) || x == t@),
{
    let ghost s = views(v@);
    let mut k: usize = 0;
    let mut ord = Ordering::Less;
    while k < v.len()
        invariant
            k <= v.len(),
            s == views(v@),
            v@ == old(v)@,
            forall|j: int| 0 <= j < k ==> lex_cmp(#[trigger] s[j], t@) == Ordering::Less,
        ensures
            k <= v.len(),
            s == views(v@),
            v@ == old(v)@,
            forall|j: int| 0 <= j < k ==> lex_cmp(#[trigger] s[j], t@) == Ordering::Less,
            k < v.len() ==> lex_cmp(s[k as int], t@) == ord && ord != Ordering::Less,
        decreases v.len() - k,
    {
        let c = compare_text(v[k].as_str(), t.as_str());
        match c {
            Ordering::Less => {},
            _ => {
                ord = c;
                break;
            },
        }
        k = k + 1;
    }
    if k < v.len() {
        match ord {
            Ordering::Equal => {
                proof {
                    lemma_lex_equal(s[k as int], t@);
                    assert(s[k as int] == v@[k as int]@);
                    assert forall|x: Seq<char>|
                        s.contains(x) <==> (s.contains(x) || x == t@) by {
                        if x == t@ {
                            assert(s[k as int] == x);
                        }
                    }
                }
                return;
            },
            _ => {},
        }
    }
    let ghost tv = t@;
    v.insert(k, t);
    let ghost n = views(v@);
    proof {
        assert(n =~= s.insert(k as int, tv));
        if k < s.len() {
            lemma_lex_flip(tv, s[k as int]);
        }
        assert forall|i: int, j: int| 0 <= i < j < n.len() implies lex_cmp(
            #[trigger] n[i],
            #[trigger] n[j],
        ) == Ordering::Less by {
            if j < k {
                assert(n[i] == s[i] && n[j] == s[j]);
            } else if j == k {
                assert(n[i] == s[i]);
            } else if i < k {
                assert(n[i] == s[i] && n[j] == s[j - 1]);
            } else if i == k {
                assert(n[j] == s[j - 1]);
                if j - 1 > k {
                    lemma_lex_transitive(tv, s[k as int], s[j - 1]);
                }
            } else {
                assert(n[i] == s[i - 1] && n[j] == s[j - 1]);
            }
        }
        assert forall|x: Seq<char>| n.contains(x) <==> (s.contains(x) || x == tv) by {
            if s.contains(x) {
                let i = choose|i: int| 0 <= i < s.len() && s[i] == x;
                if i < k {
                    assert(n[i] == x);
                } else {
                    assert(n[i + 1] == x);
                }
            }
            if x == tv {
                assert(n[k as int] == x);
            }
            if n.contains(x) {
                let i = choose|i: int| 0 <= i < n.len() && n[i] == x;
                if i < k {
                    assert(s[i] == x);
                } else if i > k {
                    assert(s[i - 1] == x);
                }
            }
        }
    }
}

/// Adds every string of `ts` to a sorted set.
pub fn insert_all_sorted(v: &mut Vec<String>, ts: &Vec<String>)
    requires
        sorted_set(views(old(v)@)),
    ensures
        sorted_set(views(final(v)@)),
        forall|x: Seq<char>|
            #[trigger] views(final(v)@).contains(x) <==> (views(old(v)@).contains(x) || views(ts@).contains(
                x,
            )),
{
    let mut i: usize = 0;
    while i < ts.len()
        invariant
            i <= ts.len(),
            sorted_set(views(v@)),
            forall|x: Seq<char>|
                #[trigger] views(v@).contains(x) <==> (views(old(v)@).contains(x) || views(
                    ts@.subrange(0, i as int),
                ).contains(x)),
        decreases ts.len() - i,
    {
        proof {
            assert(views(ts@.subrange(0, i + 1)) =~= views(ts@.subrange(0, i as int)) + seq![
                ts@[i as int]@,
            ]);
            assert forall|x: Seq<char>| #[trigger]
                views(ts@.subrange(0, i + 1)).contains(x) <==> (views(
                    ts@.subrange(0, i as int),
                ).contains(x) || x == ts@[i as int]@) by {
                lemma_concat_contains(
                    views(ts@.subrange(0, i as int)),
                    seq![ts@[i as int]@],
                    x,
                );
                assert(seq![ts@[i as int]@].contains(x) == (x == ts@[i as int]@)) by {
                    if x == ts@[i as int]@ {
                        assert(seq![ts@[i as int]@][0] == x);
                    }
                }
            }
        }
        insert_sorted(v, ts[i].clone());
        i = i + 1;
    }
    assert(ts@.subrange(0, ts.len() as int) =~= ts@);
}

pub open spec fn opt_views(o: Option<Vec<String>>) -> Option<Seq<String>> {
    match o {
        Some(v) => Some(v@),
        None => None,
    }
}

/// The tags of the categories that are not ignored, category by category.
pub open spec fn category_tags(cats: Seq<(String, Vec<String>)>, ignored: Option<Seq<String>>) -> Seq<
    Seq<char>,
>
    decreases cats.len(),
{
    if cats.len() == 0 {
        Seq::empty()
    } else {
        let (name, ts) = cats.last();
        category_tags(cats.drop_last(), ignored) + match ignored {
            Some(ig) if contains_text(ig, name@) => Seq::empty(),
            _ => views(ts@),
        }
    }
}

/// The tags an item contributes to a tag listing.
pub open spec fn item_tag_list(tags: Tags, ignored: Option<Seq<String>>) -> Seq<Seq<char>> {
    match tags {
        Tags::All(ts) => views(ts@),
        Tags::Categorized(cats) => category_tags(cats@, ignored),
    }
}

pub open spec fn posts_tag_list(posts: Seq<Item>, ignored: Option<Seq<String>>) -> Seq<Seq<char>>
    decreases posts.len(),
{
    if posts.len() == 0 {
        Seq::empty()
    } else {
        posts_tag_list(posts.drop_last(), ignored) + item_tag_list(posts.last().tags, ignored)
    }
}

pub open spec fn posts_categories(posts: Seq<Item>) -> Seq<Seq<char>>
    decreases posts.len(),
{
    if posts.len() == 0 {
        Seq::empty()
    } else {
        posts_categories(posts.drop_last()) + match posts.last().tags {
            Tags::Categorized(cats) => cats@.map_values(|c: (String, Vec<String>)| c.0@),
            Tags::All(_) => Seq::empty(),
        }
    }
}

/// Every tag of the given items, once each, sorted; categories named in
/// `ignored` are left out.
pub fn image_tags(posts: &Vec<Item>, ignored: &Option<Vec<String>>) -> (r: Vec<String>)
    ensures
        sorted_set(views(r@)),
        forall|x: Seq<char>|
            #[trigger] views(r@).contains(x) <==> posts_tag_list(posts@, opt_views(*ignored)).contains(x),
{
    let ghost ig = opt_views(*ignored);
    let mut out: Vec<String> = Vec::new();
    let mut i: usize = 0;
    while i < posts.len()
        invariant
            i <= posts.len(),
            ig == opt_views(*ignored),
            sorted_set(views(out@)),
            forall|x: Seq<char>|
                #[trigger] views(out@).contains(x) <==> posts_tag_list(posts@.subrange(0, i as int), ig).contains(
                    x,
                ),
        decreases posts.len() - i,
    {
        let ghost before = views(out@);
        proof {
            assert(posts@.subrange(0, i + 1).drop_last() =~= posts@.subrange(0, i as int));
        }
        let ghost sofar = posts_tag_list(posts@.subrange(0, i as int), ig);
        match &posts[i].tags {
            Tags::All(ts) => {
                insert_all_sorted(&mut out, ts);
            },
            Tags::Categorized(cats) => {
                let mut c: usize = 0;
                while c < cats.len()
                    invariant
                        c <= cats.len(),
                        ig == opt_views(*ignored),
                        sorted_set(views(out@)),
                        forall|x: Seq<char>|
                            #[trigger] views(out@).contains(x) <==> (before.contains(x) || category_tags(
                                cats@.subrange(0, c as int),
                                ig,
                            ).contains(x)),
                    decreases cats.len() - c,
                {
                    let ghost prev = category_tags(cats@.subrange(0, c as int), ig);
                    proof {
                        assert(cats@.subrange(0, c + 1).drop_last() =~= cats@.subrange(0, c as int));
                    }
                    let skip = match ignored {
                        Some(names) => contains_str(names, cats[c].0.as_str()),
                        None => false,
                    };
                    let ghost mid = views(out@);
                    let ghost added = if skip {
                        Seq::<Seq<char>>::empty()
                    } else {
                        views(cats@[c as int].1@)
                    };
                    if !skip {
                        insert_all_sorted(&mut out, &cats[c].1);
                    }
                    proof {
                        assert(category_tags(cats@.subrange(0, c + 1), ig) == prev + added);
                        assert forall|x: Seq<char>|
                            #[trigger] views(out@).contains(x) <==> (before.contains(x) || category_tags(
                                cats@.subrange(0, c + 1),
                                ig,
                            ).contains(x)) by {
                            lemma_concat_contains(prev, added, x);
                            assert(mid.contains(x) == (before.contains(x) || prev.contains(x)));
                            if skip {
                                assert(!added.contains(x));
                            } else {
                                assert(views(out@).contains(x) == (mid.contains(x) || added.contains(x)));
                            }
                        }
                    }
                    c = c + 1;
                }
                assert(cats@.subrange(0, cats.len() as int) =~= cats@);
            },
        }
        proof {
            let prev = posts_tag_list(posts@.subrange(0, i as int), ig);
            let added = item_tag_list(posts@[i as int].tags, ig);
            assert(posts_tag_list(posts@.subrange(0, i + 1), ig) == prev + added);
            assert forall|x: Seq<char>|
                #[trigger] views(out@).contains(x) <==> posts_tag_list(posts@.subrange(0, i + 1), ig).contains(
                    x,
                ) by {
                lemma_concat_contains(prev, added, x);
                assert(before.contains(x) == prev.contains(x));
                assert(views(out@).contains(x) == (before.contains(x) || added.contains(x)));
            }
        }
        i = i + 1;
    }
    assert(posts@.subrange(0, posts.len() as int) =~= posts@);
    out
}

/// Every category name of the given items, once each, sorted.
pub fn image_categories(posts: &Vec<Item>) -> (r: Vec<String>)
    ensures
        sorted_set(views(r@)),
        forall|x: Seq<char>| #[trigger] views(r@).contains(x) <==> posts_categories(posts@).contains(x),
{
    let mut out: Vec<String> = Vec::new();
    let mut i: usize = 0;
    while i < posts.len()
        invariant
            i <= posts.len(),
            sorted_set(views(out@)),
            forall|x: Seq<char>|
                #[trigger] views(out@).contains(x) <==> posts_categories(posts@.subrange(0, i as int)).contains(x),
        decreases posts.len() - i,
    {
        let ghost before = views(out@);
        proof {
            assert(posts@.subrange(0, i + 1).drop_last() =~= posts@.subrange(0, i as int));
        }
        match &posts[i].tags {
            Tags::All(_) => {},
            Tags::Categorized(cats) => {
                let mut c: usize = 0;
                while c < cats.len()
                    invariant
                        c <= cats.len(),
                        sorted_set(views(out@)),
                        forall|x: Seq<char>|
                            #[trigger] views(out@).contains(x) <==> (before.contains(x) || cats@.subrange(
                                0,
                                c as int,
                            ).map_values(|p: (String, Vec<String>)| p.0@).contains(x)),
                    decreases cats.len() - c,
                {
                    let ghost prev = cats@.subrange(0, c as int).map_values(
                        |p: (String, Vec<String>)| p.0@,
                    );
                    let ghost name = cats@[c as int].0@;
                    insert_sorted(&mut out, cats[c].0.clone());
                    proof {
                        assert(cats@.subrange(0, c + 1).map_values(|p: (String, Vec<String>)| p.0@)
                            =~= prev + seq![name]);
                        assert forall|x: Seq<char>|
                            #[trigger] views(out@).contains(x) <==> (before.contains(x) || cats@.subrange(
                                0,
                                c + 1,
                            ).map_values(|p: (String, Vec<String>)| p.0@).contains(x)) by {
                            lemma_concat_contains(prev, seq![name], x);
                            if x == name {
                                assert(seq![name][0] == x);
                            }
                            if seq![name].contains(x) {
                                assert(x == name);
                            }
                        }
                    }
                    c = c + 1;
                }
                assert(cats@.subrange(0, cats.len() as int) =~= cats@);
            },
        }
        proof {
            let prev = posts_categories(posts@.subrange(0, i as int));
            let added = match posts@[i as int].tags {
                Tags::Categorized(cats) => cats@.map_values(|c: (String, Vec<String>)| c.0@),
                Tags::All(_) => Seq::empty(),
            };
            assert(posts_categories(posts@.subrange(0, i + 1)) == prev + added);
            assert forall|x: Seq<char>|
                #[trigger] views(out@).contains(x) <==> posts_categories(posts@.subrange(0, i + 1)).contains(
                    x,
                ) by {
                lemma_concat_contains(prev, added, x);
            }
        }
        i = i + 1;
    }
    assert(posts@.subrange(0, posts.len() as int) =~= posts@);
    out
}

} // verus!
