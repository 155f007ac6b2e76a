//! Verified core of a disk-space cleaner for development trees.
//!
//! The library identifies reclaimable build-artifact and cache directories
//! (build output, dependency caches, IDE and OS junk) in a snapshot of a
//! filesystem tree, aggregates their sizes, and manages a time-bounded cache
//! of scan results.  All decision logic is verified; reading the disk,
//! serialising the cache file and rendering output live outside the library
//! and hand it plain values.

pub mod cache;
pub mod classify;
pub mod scanner;
pub mod types;
pub mod utils;
