//! A byte-budgeted, least-recently-used cache for compiled modules.

pub mod cached_module;
pub mod checksum;
pub mod errors;
pub mod in_memory_cache;
pub mod lru;
pub mod recency;
pub mod size;
pub mod theorems;

pub use cached_module::CachedModule;
pub use checksum::Checksum;
pub use errors::CacheError;
pub use in_memory_cache::InMemoryCache;
pub use size::Size;
