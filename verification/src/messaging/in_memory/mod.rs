//! A broker inside the process: what a workload sends stays within that workload.
pub mod broker;
pub mod driver;
pub mod effects;
pub mod laws;
pub mod model;
pub mod requests;
pub mod runs;
