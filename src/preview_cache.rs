use vstd::prelude::*;
use base64::Engine;
use cached::{Cached, SizedCache};

verus! {

#[verifier::external_type_specification]
#[verifier::external_body]
#[verifier::reject_recursive_types(K)]
#[verifier::reject_recursive_types(V)]
pub struct ExSizedCache<K, V>(SizedCache<K, V>);

/// One cache entry: resource path, target size and the rendered artifact.
pub type Entry = (Seq<char>, u32, Seq<char>);

/// The entries of a `SizedCache`, most recently used first.
pub uninterp spec fn sized_entries(c: SizedCache<(String, u32), String>) -> Seq<Entry>;

/// The number of entries a `SizedCache` was made to hold.
pub uninterp spec fn sized_capacity(c: SizedCache<(String, u32), String>) -> nat;

pub open spec fn has_key(es: Seq<Entry>, path: Seq<char>, size: u32) -> bool {
    exists|j: int| 0 <= j < es.len() && (#[trigger] es[j]).0 == path && es[j].1 == size
}

/// Where the entry for a key stands, when there is one.
pub open spec fn key_index(es: Seq<Entry>, path: Seq<char>, size: u32) -> int {
    choose|j: int| 0 <= j < es.len() && (#[trigger] es[j]).0 == path && es[j].1 == size
}

pub open spec fn unique_keys(es: Seq<Entry>) -> bool {
    forall|j: int, k: int|
        0 <= j < es.len() && 0 <= k < es.len() && j != k ==> (#[trigger] es[j].0, es[j].1) != (
            #[trigger] es[k].0,
            es[k].1,
        )
}

/// The entries of a well-formed cache have distinct keys and never
/// outnumber its capacity.
pub open spec fn entries_wf(es: Seq<Entry>, capacity: nat) -> bool {
    &&& capacity > 0
    &&& es.len() <= capacity
    &&& unique_keys(es)
}

/// The value a lookup returns.
pub open spec fn lookup_result(es: Seq<Entry>, path: Seq<char>, size: u32) -> Option<Seq<char>> {
    if has_key(es, path, size) {
        Some(es[key_index(es, path, size)].2)
    } else {
        None
    }
}

/// The entries after a lookup: a hit moves its entry to the front.
pub open spec fn after_lookup(es: Seq<Entry>, path: Seq<char>, size: u32) -> Seq<Entry> {
    if has_key(es, path, size) {
        let j = key_index(es, path, size);
        seq![es[j]] + es.remove(j)
    } else {
        es
    }
}

/// The entries after an insertion: an existing key gets the new value in
/// place; a new key goes to the front, and when that makes one entry too
/// many the least recently used one, at the back, is evicted.
pub open spec fn after_insert(
    es: Seq<Entry>,
    capacity: nat,
    path: Seq<char>,
    size: u32,
    value: Seq<char>,
) -> Seq<Entry> {
    if has_key(es, path, size) {
        es.update(key_index(es, path, size), (path, size, value))
    } else {
        let grown = seq![(path, size, value)] + es;
        if grown.len() > capacity {
            grown.drop_last()
        } else {
            grown
        }
    }
}

/// Relies on `cached::SizedCache::with_size`: an empty cache of the given
/// size, which it refuses (panics) when zero.
#[verifier::external_body]
fn sized_new(size: usize) -> (r: SizedCache<(String, u32), String>)
    requires
        size > 0,
    ensures
        sized_entries(r) == Seq::<Entry>::empty(),
        sized_capacity(r) == size,
{
    SizedCache::with_size(size)
}

/// Relies on `Cached::cache_get` of `SizedCache`: a hit returns the value
/// and moves its entry to the front of the recency order; a miss changes no
/// entry.
#[verifier::external_body]
fn sized_get(c: &mut SizedCache<(String, u32), String>, key: &(String, u32)) -> (r: Option<String>)
    requires
        entries_wf(sized_entries(*old(c)), sized_capacity(*old(c))),
    ensures
        sized_capacity(*final(c)) == sized_capacity(*old(c)),
        sized_entries(*final(c)) == after_lookup(sized_entries(*old(c)), key.0@, key.1),
        match r {
            Some(v) => lookup_result(sized_entries(*old(c)), key.0@, key.1) == Some(v@),
            None => lookup_result(sized_entries(*old(c)), key.0@, key.1) is None,
        },
{
    c.cache_get(key).cloned()
}

/// Relies on `Cached::cache_set` of `SizedCache`: an existing key has its
/// value replaced where it stands; a new key is pushed to the front, and the
/// entry at the back is evicted when the size is exceeded.
#[verifier::external_body]
fn sized_set(c: &mut SizedCache<(String, u32), String>, key: (String, u32), value: String)
    requires
        entries_wf(sized_entries(*old(c)), sized_capacity(*old(c))),
    ensures
        sized_capacity(*final(c)) == sized_capacity(*old(c)),
        sized_entries(*final(c)) == after_insert(
            sized_entries(*old(c)),
            sized_capacity(*old(c)),
            key.0@,
            key.1,
            value@,
        ),
{
    c.cache_set(key, value);
}

/// What the standard base64 alphabet, with padding, makes of some bytes.
pub uninterp spec fn base64_of(b: Seq<u8>) -> Seq<char>;

/// Relies on `base64::Engine::encode_string` with the `STANDARD` engine:
/// appends the padded standard encoding of the bytes.
#[verifier::external_body]
fn push_base64(out: &mut String, bytes: &Vec<u8>)
    ensures
        final(out)@ == old(out)@ + base64_of(bytes@),
{
    base64::engine::general_purpose::STANDARD.encode_string(bytes, out)
}

/// The prefix of a PNG preview's data URL.
pub open spec fn png_data_prefix() -> Seq<char> {
    "data:image/png;base64,"@
}

/// A PNG image as a data URL: the prefix, then the image in base64.
pub fn preview_data_url(png: &Vec<u8>) -> (r: String)
    ensures
        r@ == png_data_prefix() + base64_of(png@),
{
    let mut out = String::from_str("data:image/png;base64,");
    push_base64(&mut out, png);
    out
}

/// The size of the cache that serves the image library's thumbnails.
pub const DEFAULT_PREVIEW_CAPACITY: usize = 4096;

/// A bounded cache of rendered previews, keyed by resource path and target
/// size, evicting the least recently used entry.
pub struct PreviewCache {
    cache: SizedCache<(String, u32), String>,
}

/// The abstract state of a preview cache.
pub struct PreviewCacheView {
    pub entries: Seq<Entry>,
    pub capacity: nat,
}

impl View for PreviewCache {
    type V = PreviewCacheView;

    closed spec fn view(&self) -> PreviewCacheView {
        PreviewCacheView { entries: sized_entries(self.cache), capacity: sized_capacity(self.cache) }
    }
}

impl PreviewCache {
    pub open spec fn wf(&self) -> bool {
        entries_wf(self@.entries, self@.capacity)
    }

    /// An empty cache holding up to `capacity` entries.
    pub fn new(capacity: usize) -> (r: PreviewCache)
        requires
            capacity > 0,
        ensures
            r.wf(),
            r@.entries.len() == 0,
            r@.capacity == capacity,
    {
        PreviewCache { cache: sized_new(capacity) }
    }

    /// An empty cache of `DEFAULT_PREVIEW_CAPACITY` entries.
    pub fn with_default_capacity() -> (r: PreviewCache)
        ensures
            r.wf(),
            r@.entries.len() == 0,
            r@.capacity == DEFAULT_PREVIEW_CAPACITY,
    {
        PreviewCache::new(DEFAULT_PREVIEW_CAPACITY)
    }

    /// The cached preview of `path` at `size`; a hit marks the entry most
    /// recently used.
    pub fn lookup(&mut self, path: &String, size: u32) -> (r: Option<String>)
        requires
            old(self).wf(),
        ensures
            final(self).wf(),
            final(self)@.capacity == old(self)@.capacity,
            final(self)@.entries == after_lookup(old(self)@.entries, path@, size),
            match r {
                Some(v) => lookup_result(old(self)@.entries, path@, size) == Some(v@),
                None => lookup_result(old(self)@.entries, path@, size) is None,
            },
    {
        let key = (path.clone(), size);
        let r = sized_get(&mut self.cache, &key);
        proof {
            lemma_lookup_wf(old(self)@.entries, old(self)@.capacity, path@, size);
        }
        r
    }

    /// Caches the preview of `path` at `size`.
    pub fn store(&mut self, path: String, size: u32, data: String)
        requires
            old(self).wf(),
        ensures
            final(self).wf(),
            final(self)@.capacity == old(self)@.capacity,
            final(self)@.entries == after_insert(
                old(self)@.entries,
                old(self)@.capacity,
                path@,
                size,
                data@,
            ),
    {
        let ghost p = path@;
        let ghost d = data@;
        sized_set(&mut self.cache, (path, size), data);
        proof {
            lemma_insert_wf(old(self)@.entries, old(self)@.capacity, p, size, d);
        }
    }

    /// Takes the outcome of rendering the preview of `path` at `size`: a
    /// rendered preview is cached and returned; a failure is returned and
    /// not cached, so the next request renders again.
    pub fn finish_render(&mut self, path: String, size: u32, rendered: Result<String, String>) -> (r:
        Result<String, String>)
        requires
            old(self).wf(),
        ensures
            final(self).wf(),
            final(self)@.capacity == old(self)@.capacity,
            r == rendered,
            final(self)@.entries == match rendered {
                Ok(d) => after_insert(old(self)@.entries, old(self)@.capacity, path@, size, d@),
                Err(_) => old(self)@.entries,
            },
    {
        match rendered {
            Ok(data) => {
                let copy = data.clone();
                self.store(path, size, copy);
                Ok(data)
            },
            Err(e) => Err(e),
        }
    }
}

proof fn lemma_lookup_wf(es: Seq<Entry>, capacity: nat, path: Seq<char>, size: u32)
    requires
        entries_wf(es, capacity),
    ensures
        entries_wf(after_lookup(es, path, size), capacity),
{
    if has_key(es, path, size) {
        let j = key_index(es, path, size);
        let r = after_lookup(es, path, size);
        assert(r.len() == es.len());
        assert forall|a: int, b: int|
            0 <= a < r.len() && 0 <= b < r.len() && a != b implies (#[trigger] r[a].0, r[a].1) != (
            #[trigger] r[b].0,
            r[b].1,
        ) by {
            let ia = if a == 0 {
                j
            } else if a - 1 < j {
                a - 1
            } else {
                a
            };
            let ib = if b == 0 {
                j
            } else if b - 1 < j {
                b - 1
            } else {
                b
            };
            assert(r[a] == es[ia]);
            assert(r[b] == es[ib]);
            assert(es[ia].0 == es[ia].0);
            assert(es[ib].0 == es[ib].0);
        }
    }
}

proof fn lemma_insert_wf(es: Seq<Entry>, capacity: nat, path: Seq<char>, size: u32, v: Seq<char>)
    requires
        entries_wf(es, capacity),
    ensures
        entries_wf(after_insert(es, capacity, path, size, v), capacity),
{
    let r = after_insert(es, capacity, path, size, v);
    if has_key(es, path, size) {
        let j = key_index(es, path, size);
        assert forall|a: int, b: int|
            0 <= a < r.len() && 0 <= b < r.len() && a != b implies (#[trigger] r[a].0, r[a].1) != (
            #[trigger] r[b].0,
            r[b].1,
        ) by {
            assert(es[a].0 == es[a].0);
            assert(es[b].0 == es[b].0);
        }
    } else {
        let grown = seq![(path, size, v)] + es;
        assert forall|a: int, b: int|
            0 <= a < grown.len() && 0 <= b < grown.len() && a != b implies (
            #[trigger] grown[a].0,
            grown[a].1,
        ) != (#[trigger] grown[b].0, grown[b].1) by {
            if a > 0 {
                assert(grown[a] == es[a - 1]);
                assert(es[a - 1].0 == es[a - 1].0);
            }
            if b > 0 {
                assert(grown[b] == es[b - 1]);
                assert(es[b - 1].0 == es[b - 1].0);
            }
        }
        if grown.len() > capacity {
            assert forall|a: int, b: int|
                0 <= a < r.len() && 0 <= b < r.len() && a != b implies (
                #[trigger] r[a].0,
                r[a].1,
            ) != (#[trigger] r[b].0, r[b].1) by {
                assert(r[a] == grown[a]);
                assert(r[b] == grown[b]);
                assert(grown[a].0 == grown[a].0);
                assert(grown[b].0 == grown[b].0);
            }
        }
    }
}

/// The entries after inserting each of `ks`, in order.
pub open spec fn insert_all(es: Seq<Entry>, capacity: nat, ks: Seq<Entry>) -> Seq<Entry>
    decreases ks.len(),
{
    if ks.len() == 0 {
        es
    } else {
        let e = ks.last();
        after_insert(insert_all(es, capacity, ks.drop_last()), capacity, e.0, e.1, e.2)
    }
}

/// Inserting a new key into a full cache evicts exactly the least recently
/// used entry, the one at the back, and the cache stays at its capacity.
pub proof fn lemma_full_cache_evicts_least_recent(
    es: Seq<Entry>,
    capacity: nat,
    path: Seq<char>,
    size: u32,
    value: Seq<char>,
)
    requires
        entries_wf(es, capacity),
        es.len() == capacity,
        !has_key(es, path, size),
    ensures
        after_insert(es, capacity, path, size, value) == seq![(path, size, value)]
            + es.drop_last(),
        after_insert(es, capacity, path, size, value).len() == capacity,
        !after_insert(es, capacity, path, size, value).contains(es.last()),
{
    let r = after_insert(es, capacity, path, size, value);
    assert(r =~= seq![(path, size, value)] + es.drop_last());
    if r.contains(es.last()) {
        let k = choose|k: int| 0 <= k < r.len() && r[k] == es.last();
        if k == 0 {
            assert(es[es.len() - 1].0 == path && es[es.len() - 1].1 == size);
        } else {
            assert(r[k] == es[k - 1]);
            assert(es[k - 1].0 == es[k - 1].0);
            assert(es[es.len() - 1].0 == es[es.len() - 1].0);
        }
    }
}

/// Inserting keys that are all distinct into an empty cache leaves the last
/// `capacity` of them (all of them, when fewer), most recent first: every
/// older one has been evicted.
pub proof fn lemma_distinct_inserts_keep_most_recent(capacity: nat, ks: Seq<Entry>)
    requires
        capacity > 0,
        unique_keys(ks),
    ensures
        ({
            let r = insert_all(Seq::empty(), capacity, ks);
            &&& entries_wf(r, capacity)
            &&& r.len() == if ks.len() < capacity {
                ks.len()
            } else {
                capacity
            }
            &&& forall|j: int| 0 <= j < r.len() ==> #[trigger] r[j] == ks[ks.len() - 1 - j]
        }),
    decreases ks.len(),
{
    if ks.len() > 0 {
        let prev = ks.drop_last();
        assert(unique_keys(prev)) by {
            assert forall|a: int, b: int|
                0 <= a < prev.len() && 0 <= b < prev.len() && a != b implies (
                #[trigger] prev[a].0,
                prev[a].1,
            ) != (#[trigger] prev[b].0, prev[b].1) by {
                assert(prev[a] == ks[a] && prev[b] == ks[b]);
                assert(ks[a].0 == ks[a].0);
                assert(ks[b].0 == ks[b].0);
            }
        }
        lemma_distinct_inserts_keep_most_recent(capacity, prev);
        let r0 = insert_all(Seq::empty(), capacity, prev);
        let e = ks.last();
        assert(!has_key(r0, e.0, e.1)) by {
            if has_key(r0, e.0, e.1) {
                let j = choose|j: int| 0 <= j < r0.len() && (#[trigger] r0[j]).0 == e.0 && r0[j].1 == e.1;
                assert(r0[j] == ks[ks.len() - 2 - j]);
                let a = ks.len() - 2 - j;
                let b = ks.len() - 1;
                assert(ks[a].0 == ks[a].0);
                assert(ks[b].0 == ks[b].0);
            }
        }
        lemma_insert_wf(r0, capacity, e.0, e.1, e.2);
        let r = insert_all(Seq::empty(), capacity, ks);
        assert(r == after_insert(r0, capacity, e.0, e.1, e.2));
        assert forall|j: int| 0 <= j < r.len() implies #[trigger] r[j] == ks[ks.len() - 1 - j] by {
            if j > 0 {
                assert(r[j] == r0[j - 1]);
            }
        }
    } else {
        assert(insert_all(Seq::empty(), capacity, ks) == Seq::<Entry>::empty());
    }
}

/// A lookup that hits moves the entry to the front, so in a full cache of
/// two or more entries the insertion of a new key that follows does not
/// evict it.
pub proof fn lemma_lookup_protects_from_next_eviction(
    es: Seq<Entry>,
    capacity: nat,
    path: Seq<char>,
    size: u32,
    new_path: Seq<char>,
    new_size: u32,
    value: Seq<char>,
)
    requires
        entries_wf(es, capacity),
        capacity >= 2,
        has_key(es, path, size),
        !has_key(es, new_path, new_size),
    ensures
        after_lookup(es, path, size)[0] == es[key_index(es, path, size)],
        has_key(
            after_insert(after_lookup(es, path, size), capacity, new_path, new_size, value),
            path,
            size,
        ),
{
    let j = key_index(es, path, size);
    let l = after_lookup(es, path, size);
    assert(l.len() == es.len());
    assert(!has_key(l, new_path, new_size)) by {
        if has_key(l, new_path, new_size) {
            let k = choose|k: int| 0 <= k < l.len() && (#[trigger] l[k]).0 == new_path && l[k].1 == new_size;
            if k == 0 {
                assert(es[j].0 == new_path && es[j].1 == new_size);
            } else if k - 1 < j {
                assert(l[k] == es[k - 1]);
                assert(es[k - 1].0 == new_path && es[k - 1].1 == new_size);
            } else {
                assert(l[k] == es[k]);
                assert(es[k].0 == new_path && es[k].1 == new_size);
            }
        }
    }
    let r = after_insert(l, capacity, new_path, new_size, value);
    let grown = seq![(new_path, new_size, value)] + l;
    assert(grown[1] == l[0]);
    assert(r[1] == es[j]);
    assert(r[1].0 == path && r[1].1 == size);
}

} // verus!
