//! Messaging between guests: subjects, messages and brokers.
pub mod consumer_group;
pub mod delivery;
pub mod guest;
pub mod handler;
pub mod in_memory;
pub mod message;
pub mod multiplexed;
pub mod nats;
pub mod queue;
pub mod reply_slot;
pub mod report;
pub mod subject;
pub mod tombstones;
