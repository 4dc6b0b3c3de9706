use vstd::prelude::*;

use crate::error::Result;
use crate::translator::cache::CacheStats;

verus! {

/// A store of translations keyed by source text, provider identity and
/// language pair, with counters. [`crate::translator::MemoryCache`] states
/// and proves the behaviour of each method over the cache's contents
/// (`lookup`, `store`); the file-backed store is implemented outside the
/// library.
pub trait CacheBackend {
    /// The stored translation of `source`, if its entry passes the checksum guard.
    fn get(&mut self, source: &str, model: &str, lang_pair: &str) -> Option<String>;

    /// Creates or overwrites the entry for the request.
    fn set(&mut self, source: &str, translation: &str, model: &str, lang_pair: &str) -> Result<()>;

    /// Removes every entry and resets the counters.
    fn clear(&mut self) -> Result<()>;

    /// The counters, with the current size of the store.
    fn stats(&mut self) -> CacheStats;
}

} // verus!
