//! A persistent lookup cache: an index of known words over hash-addressed
//! buckets of `(word, value)` pairs.
//!
//! The engine performs no I/O itself. It decides, step by step, which file
//! has to be read or written; the caller performs the step and reports back.

pub mod bucket;
pub mod cache;
pub mod codec;
pub mod error;
pub mod index;
pub mod laws;
pub mod segment;

pub use cache::Cache;
pub use error::CacheError;
