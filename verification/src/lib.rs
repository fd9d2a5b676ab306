//! Verified core of a stream-filtering tool for compressed line archives.
//!
//! The library decodes a zstd archive, keeps the lines that match a pattern,
//! and joins the kept lines with a single separator and no trailing separator,
//! while task counters feed a shared progress aggregator and an estimator
//! derives a remaining-time figure from noisy byte counts.

pub mod buffer;
pub mod codec;
pub mod config;
pub mod counters;
pub mod filter;
pub mod naming;
pub mod progress;
pub mod task;
