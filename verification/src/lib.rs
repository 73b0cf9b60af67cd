//! A bridge between Matrix and MQTT.
//!
//! Events of the watched rooms are published to `<prefix>/<room ID>`, and text that is published
//! to `<prefix>/<room ID>/send/text` is sent to the room. The library decides what is done, and
//! leaves the network and the file system to its caller: each decision is a function from what
//! happened to the actions that follow.

pub mod bridge;
pub mod cli;
pub mod event;
pub mod ident;
pub mod matrix;
pub mod metrics;
pub mod mqtt;
pub mod session;
pub mod topic;
