//! OpenTelemetry for guests: spans, metrics and logs that they hand in.
pub mod convert;
pub mod json;
pub mod laws;
pub mod logs;
pub mod metrics;
pub mod plugin;
pub mod summary;
pub mod types;
