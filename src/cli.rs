use vstd::prelude::*;

use crate::translator::config::TranslatorConfig;

verus! {

/// The command line: one subcommand.
pub struct Cli {
    pub command: Commands,
}

pub enum Commands {
    /// Translate a markdown file.
    Translate(TranslateArgs),
    /// View a translated markdown file in the browser.
    View(ViewArgs),
    /// Serve a directory with live reload.
    Serve(ServeArgs),
    /// Manage the translation cache.
    Cache(CacheArgs),
}

pub struct TranslateArgs {
    /// Input markdown file.
    pub file: String,
    /// Output file; standard output when absent.
    pub output: Option<String>,
    /// Model name.
    pub model: String,
    /// Server URL.
    pub ollama_url: String,
    /// Do not use the cache.
    pub no_cache: bool,
    /// Output format (markdown or html).
    pub format: String,
}

pub struct ViewArgs {
    pub file: String,
    pub model: String,
    pub ollama_url: String,
}

pub struct ServeArgs {
    pub dir: Option<String>,
    pub port: u16,
    pub watch: bool,
    pub model: String,
    pub ollama_url: String,
}

pub struct CacheArgs {
    pub command: CacheCommands,
}

#[derive(Debug, Clone, Copy, PartialEq, Eq, Structural)]
pub enum CacheCommands {
    /// Show the cache counters.
    Stats,
    /// Remove every cache entry.
    Clear,
}

/// The settings of the translate command: the defaults, with progress shown
/// and the cache unless it is switched off.
pub fn translate_config(args: &TranslateArgs) -> (r: TranslatorConfig)
    ensures
        r.source_lang@ == "en"@,
        r.target_lang@ == "ja"@,
        r.use_cache == !args.no_cache,
        r.parallel_requests == 3,
        r.show_progress,
{
    let mut config = TranslatorConfig::default();
    config.use_cache = !args.no_cache;
    config.show_progress = true;
    config
}

} // verus!
