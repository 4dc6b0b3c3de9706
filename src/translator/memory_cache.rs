use vstd::prelude::*;

use crate::error::Result;
use crate::translator::cache::{CacheStats, CacheView, generate_key, hash_text, lookup, store};
use crate::translator::cache_backend::CacheBackend;

verus! {

struct Stored {
    key: String,
    checksum: String,
    translation: String,
}

spec fn entries_map(s: Seq<Stored>) -> CacheView
    decreases s.len(),
{
    if s.len() == 0 {
        Map::empty()
    } else {
        entries_map(s.drop_last()).insert(
            s.last().key@,
            (s.last().checksum@, s.last().translation@),
        )
    }
}

proof fn lemma_last_entry(s: Seq<Stored>, key: Seq<char>, k: int)
    requires
        0 <= k < s.len(),
        s[k].key@ == key,
        forall|j: int| k < j < s.len() ==> #[trigger] s[j].key@ != key,
    ensures
        entries_map(s).contains_key(key),
        entries_map(s)[key] == (s[k].checksum@, s[k].translation@),
    decreases s.len(),
{
    if k < s.len() - 1 {
        let t = s.drop_last();
        assert(s[s.len() - 1].key@ != key);
        assert forall|j: int| k < j < t.len() implies #[trigger] t[j].key@ != key by {
            assert(t[j] == s[j]);
        }
        lemma_last_entry(t, key, k);
    }
}

proof fn lemma_no_entry(s: Seq<Stored>, key: Seq<char>)
    requires
        forall|j: int| 0 <= j < s.len() ==> #[trigger] s[j].key@ != key,
    ensures
        !entries_map(s).contains_key(key),
    decreases s.len(),
{
    if s.len() > 0 {
        let t = s.drop_last();
        assert forall|j: int| 0 <= j < t.len() implies #[trigger] t[j].key@ != key by {
            assert(t[j] == s[j]);
        }
        lemma_no_entry(t, key);
    }
}

proof fn lemma_replace_last(s: Seq<Stored>, k: int, e: Stored)
    requires
        0 <= k < s.len(),
        s[k].key@ == e.key@,
        forall|j: int| k < j < s.len() ==> #[trigger] s[j].key@ != e.key@,
    ensures
        entries_map(s.update(k, e)) =~= entries_map(s).insert(e.key@, (e.checksum@, e.translation@)),
    decreases s.len(),
{
    let u = s.update(k, e);
    let t = s.drop_last();
    if k == s.len() - 1 {
        assert(u.drop_last() =~= t);
    } else {
        assert(u.drop_last() =~= t.update(k, e));
        assert forall|j: int| k < j < t.len() implies #[trigger] t[j].key@ != e.key@ by {
            assert(t[j] == s[j]);
        }
        lemma_replace_last(t, k, e);
        assert(s[s.len() - 1].key@ != e.key@);
    }
}

/// A cache held in memory, with the same addressing, checksum guard and
/// counters as the file-backed one.
pub struct MemoryCache {
    entries: Vec<Stored>,
    stats: CacheStats,
}

impl MemoryCache {
    /// What the cache holds.
    pub closed spec fn contents(self) -> CacheView {
        entries_map(self.entries@)
    }

    pub closed spec fn stats_view(self) -> CacheStats {
        self.stats
    }

    /// An empty cache with zero counters.
    pub fn new() -> (r: MemoryCache)
        ensures
            r.contents() == CacheView::empty(),
            r.stats_view() == CacheStats::zero(),
    {
        MemoryCache { entries: Vec::new(), stats: CacheStats::default() }
    }

    fn last_position(&self, key: &String) -> (r: Option<usize>)
        ensures
            match r {
                Some(i) => {
                    &&& i < self.entries@.len()
                    &&& self.entries@[i as int].key@ == key@
                    &&& forall|j: int|
                        i < j < self.entries@.len() ==> #[trigger] self.entries@[j].key@ != key@
                },
                None => forall|j: int|
                    0 <= j < self.entries@.len() ==> #[trigger] self.entries@[j].key@ != key@,
            },
    {
        let mut i: usize = self.entries.len();
        while i > 0
            invariant
                i <= self.entries@.len(),
                forall|j: int| i <= j < self.entries@.len() ==> #[trigger] self.entries@[j].key@ != key@,
            decreases i,
        {
            if self.entries[i - 1].key == *key {
                return Some(i - 1);
            }
            i -= 1;
        }
        None
    }

    /// The cached translation of `source` for this provider and language
    /// pair, when there is an entry under its key whose checksum is that of
    /// `source`. Counts the lookup as a hit or a miss.
    pub fn get(&mut self, source: &str, model: &str, lang_pair: &str) -> (r: Option<String>)
        ensures
            final(self).contents() == old(self).contents(),
            match r {
                Some(t) => lookup(old(self).contents(), source@, model@, lang_pair@) == Some(t@),
                None => lookup(old(self).contents(), source@, model@, lang_pair@) is None,
            },
            final(self).stats_view() == old(self).stats_view().after_lookup(r is Some),
    {
        let key = generate_key(source, model, lang_pair);
        let r = match self.last_position(&key) {
            Some(i) => {
                proof {
                    lemma_last_entry(self.entries@, key@, i as int);
                }
                let expected = hash_text(source);
                if self.entries[i].checksum == expected {
                    Some(self.entries[i].translation.clone())
                } else {
                    None
                }
            },
            None => {
                proof {
                    lemma_no_entry(self.entries@, key@);
                }
                None
            },
        };
        let mut stats = self.stats;
        stats.record_lookup(r.is_some());
        self.stats = stats;
        r
    }

    /// Records `translation` for the request, replacing any entry under its
    /// key. Never fails.
    pub fn set(&mut self, source: &str, translation: &str, model: &str, lang_pair: &str) -> (r:
        Result<()>)
        ensures
            r is Ok,
            final(self).contents() == store(
                old(self).contents(),
                source@,
                translation@,
                model@,
                lang_pair@,
            ),
            final(self).stats_view() == old(self).stats_view(),
    {
        let key = generate_key(source, model, lang_pair);
        let e = Stored {
            key: key.clone(),
            checksum: hash_text(source),
            translation: String::from_str(translation),
        };
        match self.last_position(&key) {
            Some(i) => {
                proof {
                    lemma_replace_last(self.entries@, i as int, e);
                }
                self.entries.set(i, e);
            },
            None => {
                let ghost prev = self.entries@;
                self.entries.push(e);
                assert(self.entries@.drop_last() =~= prev);
            },
        }
        Ok(())
    }

    /// Removes every entry and resets the counters.
    pub fn clear(&mut self) -> (r: Result<()>)
        ensures
            r is Ok,
            final(self).contents() == CacheView::empty(),
            final(self).stats_view() == CacheStats::zero(),
    {
        self.entries = Vec::new();
        self.stats = CacheStats::default();
        Ok(())
    }

    /// The counters; nothing is written to a backing store, so its size is
    /// zero.
    pub fn stats(&mut self) -> (r: CacheStats)
        ensures
            r == (CacheStats { total_size_bytes: 0, ..old(self).stats_view() }),
            final(self).stats_view() == r,
            final(self).contents() == old(self).contents(),
    {
        self.stats.total_size_bytes = 0;
        self.stats
    }
}

impl CacheBackend for MemoryCache {
    fn get(&mut self, source: &str, model: &str, lang_pair: &str) -> Option<String> {
        MemoryCache::get(self, source, model, lang_pair)
    }

    fn set(&mut self, source: &str, translation: &str, model: &str, lang_pair: &str) -> Result<()> {
        MemoryCache::set(self, source, translation, model, lang_pair)
    }

    fn clear(&mut self) -> Result<()> {
        MemoryCache::clear(self)
    }

    fn stats(&mut self) -> CacheStats {
        MemoryCache::stats(self)
    }
}

} // verus!
