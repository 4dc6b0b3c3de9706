pub mod cache;
pub mod cache_backend;
pub mod cache_laws;
pub mod config;
pub mod memory_cache;
pub mod pipeline;
pub mod provider;
pub mod reconstruct;

pub use cache::{CacheEntry, CacheStats, TranslationCache};
pub use cache_backend::CacheBackend;
pub use config::TranslatorConfig;
pub use memory_cache::MemoryCache;
pub use pipeline::{Coordinator, Job, Probe, Step};
pub use provider::RetryPolicy;
pub use reconstruct::reconstruct_markdown;
