//! NATS: message headers, trace contexts and the completion of deliveries.
pub mod activity;
pub mod headers;
pub mod trace;
