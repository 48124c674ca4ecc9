//! The single-flight metadata cache. Retrieval is keyed by the structured
//! triple (image, optional tag, platform); for each key at most one
//! computation is ever in flight, later callers for the key wait on it, and
//! a completed result is kept for the rest of the process.
//!
//! The cache is the decision core alone: the mutual exclusion around it and
//! the actual pull-and-inspect work belong to the caller, which consults
//! [`MetadataCache::begin`] under its lock, performs the work only when told
//! to lead, and records the outcome with [`MetadataCache::complete`] or
//! [`MetadataCache::abandon`].

use vstd::prelude::*;
use crate::inspect::ImageMetadata;
use crate::opts::{GetMetadataOpts, Platform};

verus! {

/// The structured cache key; value-compared, so distinct option
/// combinations never collide.
#[derive(Debug, Clone)]
pub struct MetadataKey {
    pub image: String,
    pub tag: Option<String>,
    pub platform: Platform,
}

impl View for MetadataKey {
    type V = (Seq<char>, Option<Seq<char>>, Platform);

    open spec fn view(&self) -> Self::V {
        (
            self.image@,
            match self.tag {
                Some(t) => Some(t@),
                None => None,
            },
            self.platform,
        )
    }
}

impl MetadataKey {
    /// The key of one metadata retrieval.
    pub fn of_opts(opts: &GetMetadataOpts) -> (r: MetadataKey)
        ensures
            r.image@ == opts.image@,
            (match r.tag {
                Some(t) => Some(t@),
                None => None,
            }) == (match opts.tag {
                Some(t) => Some(t@),
                None => None,
            }),
            r.platform == opts.platform,
    {
        MetadataKey {
            image: opts.image.clone(),
            tag: match &opts.tag {
                Some(t) => Some(t.clone()),
                None => None,
            },
            platform: opts.platform,
        }
    }

    fn duplicate(&self) -> (r: MetadataKey)
        ensures
            r@ == self@,
    {
        MetadataKey {
            image: self.image.clone(),
            tag: match &self.tag {
                Some(t) => Some(t.clone()),
                None => None,
            },
            platform: self.platform,
        }
    }

    fn matches(&self, other: &MetadataKey) -> (r: bool)
        ensures
            r == (self@ == other@),
    {
        let image_eq = self.image == other.image;
        let tag_eq = match (&self.tag, &other.tag) {
            (Some(a), Some(b)) => *a == *b,
            (None, None) => true,
            _ => false,
        };
        let platform_eq = self.platform == other.platform;
        let r = image_eq && tag_eq && platform_eq;
        proof {
            if r {
                assert(self@ =~~= other@);
            }
        }
        r
    }
}

/// One cache slot: a computation in flight, or a retained result.
pub enum CacheEntry {
    InFlight,
    Ready(ImageMetadata),
}

/// What a slot holds, at the specification level: `None` while the
/// computation is in flight.
pub open spec fn entry_view(e: CacheEntry) -> Option<<ImageMetadata as View>::V> {
    match e {
        CacheEntry::InFlight => None,
        CacheEntry::Ready(m) => Some(m@),
    }
}

/// The map a sequence of keyed slots denotes; a later slot for the same
/// key would win, but well-formed caches never hold two.
pub open spec fn as_map(s: Seq<(MetadataKey, CacheEntry)>) -> Map<
    <MetadataKey as View>::V,
    Option<<ImageMetadata as View>::V>,
>
    decreases s.len(),
{
    if s.len() == 0 {
        Map::empty()
    } else {
        as_map(s.drop_last()).insert(s.last().0@, entry_view(s.last().1))
    }
}

/// No two slots share a key.
pub open spec fn distinct_keys(s: Seq<(MetadataKey, CacheEntry)>) -> bool {
    forall|i: int, j: int| 0 <= i < j < s.len() ==> s[i].0@ != s[j].0@
}

proof fn lemma_as_map_contains(s: Seq<(MetadataKey, CacheEntry)>)
    ensures
        forall|kv: <MetadataKey as View>::V| #![auto]
            as_map(s).contains_key(kv) <==> (exists|i: int|
                0 <= i < s.len() && #[trigger] s[i].0@ == kv),
    decreases s.len(),
{
    if s.len() > 0 {
        lemma_as_map_contains(s.drop_last());
        assert forall|kv: <MetadataKey as View>::V| #![auto]
            as_map(s).contains_key(kv) implies (exists|i: int|
            0 <= i < s.len() && #[trigger] s[i].0@ == kv) by {
            if s.last().0@ == kv {
                assert(s[s.len() - 1].0@ == kv);
            } else {
                assert(as_map(s.drop_last()).contains_key(kv));
                let i = choose|i: int| 0 <= i < s.drop_last().len() && #[trigger] s.drop_last()[i].0@
                    == kv;
                assert(s[i].0@ == kv);
            }
        }
        assert forall|kv: <MetadataKey as View>::V| #![auto]
            (exists|i: int| 0 <= i < s.len() && #[trigger] s[i].0@ == kv) implies as_map(
            s,
        ).contains_key(kv) by {
            let i = choose|i: int| 0 <= i < s.len() && #[trigger] s[i].0@ == kv;
            if i == s.len() - 1 {
                assert(s.last().0@ == kv);
            } else {
                assert(s.drop_last()[i].0@ == kv);
                assert(exists|j: int|
                    0 <= j < s.drop_last().len() && #[trigger] s.drop_last()[j].0@ == kv);
                assert(as_map(s.drop_last()).contains_key(kv));
            }
        }
    }
}

proof fn lemma_as_map_index(s: Seq<(MetadataKey, CacheEntry)>, i: int)
    requires
        distinct_keys(s),
        0 <= i < s.len(),
    ensures
        as_map(s).contains_key(s[i].0@),
        as_map(s)[s[i].0@] == entry_view(s[i].1),
    decreases s.len(),
{
    lemma_as_map_contains(s);
    if i < s.len() - 1 {
        assert(distinct_keys(s.drop_last()));
        lemma_as_map_index(s.drop_last(), i);
        assert(s[i].0@ != s.last().0@);
    }
}

proof fn lemma_as_map_update(s: Seq<(MetadataKey, CacheEntry)>, i: int, p: (MetadataKey, CacheEntry))
    requires
        distinct_keys(s),
        0 <= i < s.len(),
        p.0@ == s[i].0@,
    ensures
        as_map(s.update(i, p)) == as_map(s).insert(p.0@, entry_view(p.1)),
        distinct_keys(s.update(i, p)),
    decreases s.len(),
{
    if i == s.len() - 1 {
        assert(s.update(i, p).drop_last() =~= s.drop_last());
        assert(s.update(i, p).last() == p);
        assert(as_map(s.update(i, p)) =~= as_map(s).insert(p.0@, entry_view(p.1)));
    } else {
        assert(distinct_keys(s.drop_last()));
        lemma_as_map_update(s.drop_last(), i, p);
        assert(s.update(i, p).drop_last() =~= s.drop_last().update(i, p));
        assert(s.update(i, p).last() == s.last());
        assert(s[i].0@ != s.last().0@);
        assert(as_map(s.update(i, p)) =~= as_map(s).insert(p.0@, entry_view(p.1)));
    }
}

proof fn lemma_as_map_remove(s: Seq<(MetadataKey, CacheEntry)>, i: int)
    requires
        distinct_keys(s),
        0 <= i < s.len(),
    ensures
        as_map(s.remove(i)) == as_map(s).remove(s[i].0@),
        distinct_keys(s.remove(i)),
    decreases s.len(),
{
    s.remove_ensures(i);
    if i == s.len() - 1 {
        assert(s.remove(i) =~= s.drop_last());
        assert(distinct_keys(s.drop_last()));
        lemma_as_map_contains(s.drop_last());
        assert(!as_map(s.drop_last()).contains_key(s[i].0@));
        assert(as_map(s.remove(i)) =~= as_map(s).remove(s[i].0@));
    } else {
        assert(distinct_keys(s.drop_last()));
        lemma_as_map_remove(s.drop_last(), i);
        assert(s.remove(i).drop_last() =~= s.drop_last().remove(i));
        assert(s.remove(i).last() == s.last());
        assert(s[i].0@ != s.last().0@);
        assert(as_map(s.remove(i)) =~= as_map(s).remove(s[i].0@));
    }
}

/// Whether a caller beginning retrieval for `key` is told to lead.
pub open spec fn spec_begin_leads(
    cache: Map<<MetadataKey as View>::V, Option<<ImageMetadata as View>::V>>,
    key: <MetadataKey as View>::V,
) -> bool {
    !cache.contains_key(key)
}

/// The cache after one `begin` for `key`: a leader leaves its key marked in
/// flight, everyone else leaves the cache unchanged.
pub open spec fn spec_begin_state(
    cache: Map<<MetadataKey as View>::V, Option<<ImageMetadata as View>::V>>,
    key: <MetadataKey as View>::V,
) -> Map<<MetadataKey as View>::V, Option<<ImageMetadata as View>::V>> {
    if cache.contains_key(key) {
        cache
    } else {
        cache.insert(key, None)
    }
}

/// The cache after the leader for `key` records its result.
pub open spec fn spec_complete_state(
    cache: Map<<MetadataKey as View>::V, Option<<ImageMetadata as View>::V>>,
    key: <MetadataKey as View>::V,
    result: <ImageMetadata as View>::V,
) -> Map<<MetadataKey as View>::V, Option<<ImageMetadata as View>::V>> {
    cache.insert(key, Some(result))
}

/// What a caller consulting the cache is told.
pub enum BeginOutcome {
    /// The key was absent: the caller leads, and owes the cache a
    /// `complete` or an `abandon`.
    Lead,
    /// Another caller's computation for the key is in flight: wait on it.
    Wait,
    /// The result is already cached.
    Done(ImageMetadata),
}

/// The single-flight cache itself.
pub struct MetadataCache {
    entries: Vec<(MetadataKey, CacheEntry)>,
}

impl View for MetadataCache {
    type V = Map<<MetadataKey as View>::V, Option<<ImageMetadata as View>::V>>;

    closed spec fn view(&self) -> Self::V {
        as_map(self.entries@)
    }
}

impl MetadataCache {
    /// No two slots share a key.
    pub closed spec fn well_formed(&self) -> bool {
        distinct_keys(self.entries@)
    }

    /// An empty cache.
    pub fn new() -> (r: MetadataCache)
        ensures
            r.well_formed(),
            r@ == Map::<<MetadataKey as View>::V, Option<<ImageMetadata as View>::V>>::empty(),
    {
        MetadataCache { entries: Vec::new() }
    }

    fn find(&self, key: &MetadataKey) -> (r: Option<usize>)
        ensures
            match r {
                Some(i) => i < self.entries@.len() && self.entries@[i as int].0@ == key@,
                None => forall|i: int|
                    0 <= i < self.entries@.len() ==> #[trigger] self.entries@[i].0@ != key@,
            },
    {
        let mut i: usize = 0;
        while i < self.entries.len()
            invariant
                0 <= i <= self.entries@.len(),
                forall|j: int| 0 <= j < i ==> #[trigger] self.entries@[j].0@ != key@,
            decreases self.entries@.len() - i,
        {
            if self.entries[i].0.matches(key) {
                return Some(i);
            }
            i = i + 1;
        }
        None
    }

    /// Consults the cache for one key, atomically with respect to other
    /// callers (the caller holds the lock around the whole call). Exactly
    /// one caller per key is ever told to lead while the key stays known.
    pub fn begin(&mut self, key: &MetadataKey) -> (r: BeginOutcome)
        requires
            old(self).well_formed(),
        ensures
            final(self).well_formed(),
            (r is Lead) == spec_begin_leads(old(self)@, key@),
            final(self)@ == spec_begin_state(old(self)@, key@),
            match r {
                BeginOutcome::Lead => {
                    &&& !old(self)@.contains_key(key@)
                    &&& final(self)@ == old(self)@.insert(
                        key@,
                        None::<<ImageMetadata as View>::V>,
                    )
                },
                BeginOutcome::Wait => {
                    &&& old(self)@.contains_key(key@)
                    &&& old(self)@[key@] is None
                    &&& final(self)@ == old(self)@
                },
                BeginOutcome::Done(m) => {
                    &&& old(self)@.contains_key(key@)
                    &&& old(self)@[key@] == Some(m@)
                    &&& final(self)@ == old(self)@
                },
            },
    {
        proof {
            lemma_as_map_contains(self.entries@);
        }
        match self.find(key) {
            Some(i) => {
                proof {
                    lemma_as_map_index(self.entries@, i as int);
                }
                match &self.entries[i].1 {
                    CacheEntry::InFlight => BeginOutcome::Wait,
                    CacheEntry::Ready(m) => BeginOutcome::Done(m.duplicate()),
                }
            },
            None => {
                let slot = (key.duplicate(), CacheEntry::InFlight);
                proof {
                    assert(self.entries@.push(slot).drop_last() =~= self.entries@);
                }
                self.entries.push(slot);
                BeginOutcome::Lead
            },
        }
    }

    /// Records the leader's result for its key; later callers for the key
    /// are answered with exactly this value.
    pub fn complete(&mut self, key: &MetadataKey, metadata: ImageMetadata)
        requires
            old(self).well_formed(),
        ensures
            final(self).well_formed(),
            final(self)@ == spec_complete_state(old(self)@, key@, metadata@),
    {
        let ghost pre = self.entries@;
        match self.find(key) {
            Some(i) => {
                let slot = (key.duplicate(), CacheEntry::Ready(metadata));
                proof {
                    lemma_as_map_update(pre, i as int, slot);
                }
                self.entries.set(i, slot);
            },
            None => {
                proof {
                    lemma_as_map_contains(pre);
                }
                let slot = (key.duplicate(), CacheEntry::Ready(metadata));
                proof {
                    assert(pre.push(slot).drop_last() =~= pre);
                }
                self.entries.push(slot);
            },
        }
    }

    /// Gives a key up after a failed computation: the slot is dropped, so
    /// the next caller for the key leads a fresh attempt. Failures are
    /// never cached.
    pub fn abandon(&mut self, key: &MetadataKey)
        requires
            old(self).well_formed(),
        ensures
            final(self).well_formed(),
            final(self)@ == old(self)@.remove(key@),
    {
        let ghost pre = self.entries@;
        match self.find(key) {
            Some(i) => {
                proof {
                    lemma_as_map_remove(pre, i as int);
                }
                self.entries.remove(i);
            },
            None => {
                proof {
                    lemma_as_map_contains(pre);
                    assert(!as_map(pre).contains_key(key@));
                    assert(as_map(pre).remove(key@) =~= as_map(pre));
                }
            },
        }
    }
}

/// Law: metadata retrieval is single-flight per key. Each consultation is
/// atomic, and `begin` conforms to `spec_begin_leads`/`spec_begin_state`;
/// so of any number of callers with one key, only the first can be told to
/// lead — after one `begin`, a `begin` for the same key never leads again,
/// whatever the first was told — and once the leader has recorded its
/// result, the cache answers every caller for the key with exactly that
/// result and nothing starts the computation over.
pub proof fn lemma_single_flight(
    cache: Map<<MetadataKey as View>::V, Option<<ImageMetadata as View>::V>>,
    key: <MetadataKey as View>::V,
    result: <ImageMetadata as View>::V,
)
    ensures
        !spec_begin_leads(spec_begin_state(cache, key), key),
        !spec_begin_leads(spec_complete_state(cache, key, result), key),
        spec_complete_state(cache, key, result)[key] == Some(result),
        spec_begin_state(spec_complete_state(cache, key, result), key)
            == spec_complete_state(cache, key, result),
{
}

} // verus!
