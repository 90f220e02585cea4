//! Adaptive performance machinery: the tunable dispatch configuration, the
//! bounded result cache, the sequential/parallel dispatcher and the
//! per-operation metrics recorder.

pub mod cache;
pub mod config;
pub mod dispatch;
pub mod metrics;
pub mod sizing;
pub mod threshold;

pub use self::cache::IntelligentCache;
pub use self::config::PerformanceConfig;
pub use self::dispatch::{chunked_parallel_process, parallel_process};
pub use self::metrics::{MetricsCollector, OperationMetric};
