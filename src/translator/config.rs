use vstd::prelude::*;

use vstd::string::StringExecFns;

verus! {

/// Settings of a translation run.
pub struct TranslatorConfig {
    pub source_lang: String,
    pub target_lang: String,
    pub use_cache: bool,
    /// The most provider calls in flight at once; positive.
    pub parallel_requests: usize,
    pub show_progress: bool,
}

impl Default for TranslatorConfig {
    /// English to Japanese, with the cache, three calls at a time, and progress shown.
    fn default() -> (r: TranslatorConfig)
        ensures
            r.source_lang@ == "en"@,
            r.target_lang@ == "ja"@,
            r.use_cache,
            r.parallel_requests == 3,
            r.show_progress,
    {
        TranslatorConfig {
            source_lang: String::from_str("en"),
            target_lang: String::from_str("ja"),
            use_cache: true,
            parallel_requests: 3,
            show_progress: true,
        }
    }
}

impl TranslatorConfig {
    /// The language pair that partitions the cache: `"{source}-{target}"`.
    pub fn lang_pair(&self) -> (r: String)
        ensures
            r@ == self.source_lang@ + "-"@ + self.target_lang@,
    {
        let mut pair = String::from_str(self.source_lang.as_str());
        pair.append("-");
        pair.append(self.target_lang.as_str());
        pair
    }
}

} // verus!
