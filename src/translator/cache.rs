use vstd::prelude::*;

use crate::error::Result;
use sha2::{Digest, Sha256};
use vstd::string::StringExecFns;

verus! {

/// The SHA-256 digest of the UTF-8 encoding of a text, in lower-case hex.
pub uninterp spec fn sha256_hex_of(text: Seq<char>) -> Seq<char>;

/// Relies on `sha2::Sha256` (`Digest::new`, `update`, `finalize`) and the
/// lower-hex formatting of the digest: the hex digest of the text's bytes.
#[verifier::external_body]
fn sha256_hex(text: &str) -> (r: String)
    ensures
        r@ == sha256_hex_of(text@),
{
    let mut hasher = Sha256::new();
    hasher.update(text.as_bytes());
    format!("{:x}", hasher.finalize())
}

/// The checksum recorded with a cache entry: the hash of its source text.
pub open spec fn checksum_of(source: Seq<char>) -> Seq<char> {
    sha256_hex_of(source)
}

/// The address of a cache entry: the hash of the source text, the provider
/// identity and the language pair, one after the other.
pub open spec fn cache_key(source: Seq<char>, model: Seq<char>, lang_pair: Seq<char>) -> Seq<char> {
    sha256_hex_of(source + model + lang_pair)
}

/// The checksum of a source text.
pub fn hash_text(text: &str) -> (r: String)
    ensures
        r@ == checksum_of(text@),
{
    sha256_hex(text)
}

/// The cache key of a request.
pub fn generate_key(source: &str, model: &str, lang_pair: &str) -> (r: String)
    ensures
        r@ == cache_key(source@, model@, lang_pair@),
{
    let mut combined = String::from_str(source);
    combined.append(model);
    combined.append(lang_pair);
    sha256_hex(combined.as_str())
}

/// Counters of a cache.
#[derive(Debug, Clone, Copy, PartialEq, Eq, Structural)]
pub struct CacheStats {
    pub total_requests: u64,
    pub cache_hits: u64,
    pub cache_misses: u64,
    pub total_size_bytes: u64,
}

impl Default for CacheStats {
    fn default() -> (r: CacheStats)
        ensures
            r == CacheStats::zero(),
    {
        CacheStats { total_requests: 0, cache_hits: 0, cache_misses: 0, total_size_bytes: 0 }
    }
}

impl CacheStats {
    pub open spec fn zero() -> CacheStats {
        CacheStats { total_requests: 0, cache_hits: 0, cache_misses: 0, total_size_bytes: 0 }
    }

    /// The counters after one lookup, a hit or a miss.
    pub open spec fn after_lookup(self, hit: bool) -> CacheStats {
        CacheStats {
            total_requests: self.total_requests.saturating_add(1),
            cache_hits: if hit {
                self.cache_hits.saturating_add(1)
            } else {
                self.cache_hits
            },
            cache_misses: if hit {
                self.cache_misses
            } else {
                self.cache_misses.saturating_add(1)
            },
            ..self
        }
    }

    /// Counts one lookup.
    pub fn record_lookup(&mut self, hit: bool)
        ensures
            *final(self) == old(self).after_lookup(hit),
    {
        self.total_requests = self.total_requests.saturating_add(1);
        if hit {
            self.cache_hits = self.cache_hits.saturating_add(1);
        } else {
            self.cache_misses = self.cache_misses.saturating_add(1);
        }
    }
}

/// The answer to a lookup, given the entry found under the derived key: its
/// translation, if its recorded checksum is that of the probe's source text.
pub open spec fn checked_translation(
    found: Option<(Seq<char>, Seq<char>)>,
    source: Seq<char>,
) -> Option<Seq<char>> {
    match found {
        Some((checksum, translation)) => if checksum == checksum_of(source) {
            Some(translation)
        } else {
            None
        },
        None => None,
    }
}

/// What the cache holds under one key: the checksum of the source text and
/// the translation.
pub type StoredView = (Seq<char>, Seq<char>);

/// The contents of a cache, by key.
pub type CacheView = Map<Seq<char>, StoredView>;

/// The answer of `get` on a cache holding `m`.
pub open spec fn lookup(m: CacheView, source: Seq<char>, model: Seq<char>, lang_pair: Seq<char>) -> Option<
    Seq<char>,
> {
    let k = cache_key(source, model, lang_pair);
    checked_translation(
        if m.contains_key(k) {
            Some(m[k])
        } else {
            None
        },
        source,
    )
}

/// The contents after `set`: the entry for the request is created or
/// overwritten.
pub open spec fn store(
    m: CacheView,
    source: Seq<char>,
    translation: Seq<char>,
    model: Seq<char>,
    lang_pair: Seq<char>,
) -> CacheView {
    m.insert(cache_key(source, model, lang_pair), (checksum_of(source), translation))
}

/// A stored cache entry.
#[derive(Debug, Clone)]
pub struct CacheEntry {
    pub source: String,
    pub translation: String,
    pub model: String,
    pub language_pair: String,
    /// The time of writing, in RFC 3339.
    pub created_at: String,
    pub checksum: String,
}

impl CacheEntry {
    /// The entry that records `translation` for a request.
    pub fn new(
        source: &str,
        translation: &str,
        model: &str,
        lang_pair: &str,
        created_at: String,
    ) -> (r: CacheEntry)
        ensures
            r.source@ == source@,
            r.translation@ == translation@,
            r.model@ == model@,
            r.language_pair@ == lang_pair@,
            r.created_at@ == created_at@,
            r.checksum@ == checksum_of(source@),
    {
        CacheEntry {
            source: String::from_str(source),
            translation: String::from_str(translation),
            model: String::from_str(model),
            language_pair: String::from_str(lang_pair),
            created_at,
            checksum: hash_text(source),
        }
    }
}

/// The state of the file-backed cache: where its entries live and its
/// counters. Reading and writing the entry files is left to the caller, which
/// hands the entry it read to [`TranslationCache::resolve`].
pub struct TranslationCache {
    cache_dir: String,
    stats: CacheStats,
}

impl TranslationCache {
    pub closed spec fn stats_view(self) -> CacheStats {
        self.stats
    }

    pub closed spec fn dir(self) -> Seq<char> {
        self.cache_dir@
    }

    /// The directory that holds the entry files.
    pub fn cache_dir(&self) -> (r: &str)
        ensures
            r@ == self.dir(),
    {
        self.cache_dir.as_str()
    }

    pub fn new(cache_dir: String) -> (r: TranslationCache)
        ensures
            r.dir() == cache_dir@,
            r.stats_view() == CacheStats::zero(),
    {
        TranslationCache { cache_dir, stats: CacheStats::default() }
    }

    /// The name of the file that holds the entry for a request.
    pub fn entry_file_name(source: &str, model: &str, lang_pair: &str) -> (r: String)
        ensures
            r@ == cache_key(source@, model@, lang_pair@) + ".json"@,
    {
        let mut name = generate_key(source, model, lang_pair);
        name.append(".json");
        name
    }

    /// Settles a lookup for `source`, given the entry read under its key
    /// (`None` when there was none or it could not be read): the translation
    /// is returned only when the entry's checksum is that of `source`. Counts
    /// the lookup.
    pub fn get(&mut self, source: &str, stored: Option<CacheEntry>) -> (r: Option<String>)
        ensures
            checked_translation(
                match stored {
                    Some(e) => Some((e.checksum@, e.translation@)),
                    None => None,
                },
                source@,
            ) == match r {
                Some(t) => Some(t@),
                None => None::<Seq<char>>,
            },
            final(self).dir() == old(self).dir(),
            final(self).stats_view() == old(self).stats_view().after_lookup(r is Some),
    {
        let r = match stored {
            Some(entry) => {
                let expected = hash_text(source);
                if entry.checksum == expected {
                    Some(entry.translation)
                } else {
                    None
                }
            },
            None => None,
        };
        self.stats.record_lookup(r.is_some());
        r
    }

    /// The entry to write for a request, stamped with `created_at`.
    pub fn set(
        &self,
        source: &str,
        translation: &str,
        model: &str,
        lang_pair: &str,
        created_at: String,
    ) -> (r: CacheEntry)
        ensures
            r.source@ == source@,
            r.translation@ == translation@,
            r.model@ == model@,
            r.language_pair@ == lang_pair@,
            r.created_at@ == created_at@,
            r.checksum@ == checksum_of(source@),
    {
        CacheEntry::new(source, translation, model, lang_pair, created_at)
    }

    /// Resets the counters, once the entries have been removed.
    pub fn clear(&mut self)
        ensures
            final(self).dir() == old(self).dir(),
            final(self).stats_view() == CacheStats::zero(),
    {
        self.stats = CacheStats::default();
    }

    /// The counters, with the size of the store as measured by the caller.
    pub fn stats(&mut self, total_size_bytes: u64) -> (r: CacheStats)
        ensures
            final(self).dir() == old(self).dir(),
            r == (CacheStats { total_size_bytes, ..old(self).stats_view() }),
            final(self).stats_view() == r,
    {
        self.stats.total_size_bytes = total_size_bytes;
        self.stats
    }
}

} // verus!
