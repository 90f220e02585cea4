//! An analysis engine for source trees that remembers what it has seen and
//! adapts how it works: it fingerprints a workspace to decide whether an
//! earlier analysis can be reused, keeps a bounded cache of results, runs
//! per-file work in place or on a pool of worker threads as an effective
//! threshold decides, and adjusts its thresholds and batch sizes to the
//! durations it observes.

pub mod clock;
pub mod commands;
pub mod config;
pub mod engine;
pub mod fingerprint;
pub mod limbs;
pub mod numeric;
pub mod performance_patterns;
pub mod text;
pub mod utils;
