use vstd::prelude::*;
use crate::datasets::{contains_str, contains_text};
use crate::item::{Item, Tags};
use crate::library::{item_tag_list, posts_tag_list};
use crate::sources::{shown_tags, shown_tags_of, views};

verus! {

/// `known` followed by each tag of `found` that it does not hold yet, in
/// order of first appearance.
pub open spec fn with_new_tags(known: Seq<Seq<char>>, found: Seq<Seq<char>>) -> Seq<Seq<char>>
    decreases found.len(),
{
    if found.len() == 0 {
        known
    } else {
        let k = with_new_tags(known, found.drop_last());
        if k.contains(found.last()) {
            k
        } else {
            k.push(found.last())
        }
    }
}

/// The tag selector: the tags known for the catalog, the search typed into
/// it and the tags it shows for that search.
#[derive(Debug)]
pub struct TagSelector {
    pub available: Vec<String>,
    pub search: String,
    pub shown: Vec<String>,
}

pub proof fn lemma_views_contains(v: Seq<String>, t: Seq<char>)
    ensures
        views(v).contains(t) == contains_text(v, t),
{
    if views(v).contains(t) {
        let j = choose|j: int| 0 <= j < views(v).len() && views(v)[j] == t;
        assert(v[j]@ == t);
    }
    if contains_text(v, t) {
        let j = choose|j: int| 0 <= j < v.len() && (#[trigger] v[j])@ == t;
        assert(views(v)[j] == t);
    }
}

impl TagSelector {
    /// The shown tags always follow the search.
    pub open spec fn wf(&self) -> bool {
        views(self.shown@) == shown_tags_of(views(self.available@), self.search@)
    }

    /// A selector over `available` with nothing typed yet.
    pub fn new(available: Vec<String>) -> (r: TagSelector)
        ensures
            r.wf(),
            r.available@ == available@,
            r.search@.len() == 0,
    {
        let shown = shown_tags(&available, "");
        proof {
            reveal_strlit("");
        }
        TagSelector { available, search: String::new(), shown }
    }

    /// The user typed `search`.
    pub fn search_changed(&mut self, search: String)
        ensures
            final(self).wf(),
            final(self).available@ == old(self).available@,
            final(self).search@ == search@,
    {
        self.shown = shown_tags(&self.available, search.as_str());
        self.search = search;
    }

    /// Appends `tag` unless it is known already.
    fn learn(&mut self, tag: String)
        ensures
            views(final(self).available@) == with_new_tags(
                views(old(self).available@),
                seq![tag@],
            ),
            final(self).search@ == old(self).search@,
            final(self).shown@ == old(self).shown@,
    {
        let ghost known = views(self.available@);
        let present = contains_str(&self.available, tag.as_str());
        proof {
            lemma_views_contains(self.available@, tag@);
            let f = seq![tag@];
            assert(f.drop_last() =~= Seq::<Seq<char>>::empty());
            assert(with_new_tags(known, f.drop_last()) == known);
        }
        if !present {
            self.available.push(tag);
            assert(views(self.available@) =~= known.push(seq![tag@].last()));
        }
    }

    /// The user created a tag of their own.
    pub fn tag_created(&mut self, tag: String)
        requires
            old(self).wf(),
        ensures
            final(self).wf(),
            views(final(self).available@) == with_new_tags(
                views(old(self).available@),
                seq![tag@],
            ),
            final(self).search@ == old(self).search@,
    {
        self.learn(tag);
        self.shown = shown_tags(&self.available, self.search.as_str());
    }

    /// A search returned `posts`: their tags join the known ones.
    pub fn add_found_tags(&mut self, posts: &Vec<Item>)
        requires
            old(self).wf(),
        ensures
            final(self).wf(),
            views(final(self).available@) == with_new_tags(
                views(old(self).available@),
                posts_tag_list(posts@, None),
            ),
            final(self).search@ == old(self).search@,
    {
        let ghost start = views(self.available@);
        let mut i: usize = 0;
        while i < posts.len()
            invariant
                i <= posts.len(),
                self.search@ == old(self).search@,
                views(self.available@) == with_new_tags(
                    start,
                    posts_tag_list(posts@.subrange(0, i as int), None),
                ),
            decreases posts.len() - i,
        {
            proof {
                assert(posts@.subrange(0, i + 1).drop_last() =~= posts@.subrange(0, i as int));
            }
            let ghost before = posts_tag_list(posts@.subrange(0, i as int), None);
            match &posts[i].tags {
                Tags::All(ts) => {
                    self.learn_all(ts, Ghost(start), Ghost(before));
                },
                Tags::Categorized(cats) => {
                    let mut c: usize = 0;
                    while c < cats.len()
                        invariant
                            c <= cats.len(),
                            self.search@ == old(self).search@,
                            views(self.available@) == with_new_tags(
                                start,
                                before + crate::library::category_tags(
                                    cats@.subrange(0, c as int),
                                    None,
                                ),
                            ),
                        decreases cats.len() - c,
                    {
                        let ghost mid = before + crate::library::category_tags(
                            cats@.subrange(0, c as int),
                            None,
                        );
                        proof {
                            assert(cats@.subrange(0, c + 1).drop_last() =~= cats@.subrange(
                                0,
                                c as int,
                            ));
                            assert(before + crate::library::category_tags(
                                cats@.subrange(0, c + 1),
                                None,
                            ) =~= mid + views(cats@[c as int].1@));
                        }
                        self.learn_all(&cats[c].1, Ghost(start), Ghost(mid));
                        c = c + 1;
                    }
                    assert(cats@.subrange(0, cats.len() as int) =~= cats@);
                },
            }
            proof {
                let added = item_tag_list(posts@[i as int].tags, None);
                assert(posts_tag_list(posts@.subrange(0, i + 1), None) == before + added);
                if let Tags::Categorized(cats) = posts@[i as int].tags {
                    assert(crate::library::category_tags(cats@, None) == added);
                }
            }
            i = i + 1;
        }
        assert(posts@.subrange(0, posts.len() as int) =~= posts@);
        self.shown = shown_tags(&self.available, self.search.as_str());
    }

    /// Learns each tag of `ts`, in order.
    fn learn_all(&mut self, ts: &Vec<String>, start: Ghost<Seq<Seq<char>>>, done: Ghost<Seq<Seq<char>>>)
        requires
            views(old(self).available@) == with_new_tags(start@, done@),
        ensures
            views(final(self).available@) == with_new_tags(start@, done@ + views(ts@)),
            final(self).search@ == old(self).search@,
    {
        let mut j: usize = 0;
        while j < ts.len()
            invariant
                j <= ts.len(),
                self.search@ == old(self).search@,
                views(self.available@) == with_new_tags(
                    start@,
                    done@ + views(ts@.subrange(0, j as int)),
                ),
            decreases ts.len() - j,
        {
            let ghost f = done@ + views(ts@.subrange(0, j as int));
            let ghost g = done@ + views(ts@.subrange(0, j + 1));
            proof {
                assert(g =~= f.push(ts@[j as int]@));
                assert(g.drop_last() =~= f);
            }
            let tag = ts[j].clone();
            proof {
                let t = tag@;
                let k = with_new_tags(start@, f);
                let one = seq![t];
                assert(one.drop_last() =~= Seq::<Seq<char>>::empty());
                assert(one.last() == t);
                assert(with_new_tags(k, one.drop_last()) == k);
                assert(with_new_tags(k, one) == if k.contains(t) {
                    k
                } else {
                    k.push(t)
                });
                assert(g.last() == t);
            }
            self.learn(tag);
            j = j + 1;
        }
        assert(ts@.subrange(0, ts.len() as int) =~= ts@);
    }
}

} // verus!
