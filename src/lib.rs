//! A byte-capped, environment-aware result cache for read-only queries.
//!
//! Queries are memoized by their request identity (`EntryKey`) together
//! with a snapshot of the target program's environment (`EntryEnv`). A hit
//! requires the stored environment to equal the current one; a mismatch
//! invalidates the entry. Capacity pressure evicts the least recently used
//! entries. Every operation is reflected in `QueryCacheMetrics`.
//!
//! Each operation's contract states the cache's next model exactly
//! (`QueryCacheView::lookup`, `QueryCacheView::insert`); `laws` proves what
//! follows from it.
pub mod cache;
pub mod env;
pub mod key;
pub mod laws;
pub mod metrics;
pub mod store;
pub mod value;

pub use cache::{DEFAULT_CAPACITY_BYTES, Outcome, QueryCache, QueryCacheConfig};
pub use env::{EntryEnv, EnvMismatch};
pub use key::EntryKey;
pub use metrics::{DURATION_BOUNDS, DurationHistogram, QueryCacheMetrics};
pub use store::{LruStore, MAX_CAPACITY_BYTES, STORE_FIXED_BYTES};
pub use value::{EntryValue, WasmResult};
