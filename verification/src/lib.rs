//! Messaging, telemetry and logging for hosted guest workloads.
pub mod guest_trace;
pub mod http_api;
pub mod logging;
pub mod messaging;
pub mod nats;
pub mod otel;
pub mod propagation;
pub mod table;
pub mod text;
pub mod tracker;
pub mod wit;
