//! A small chat service: framing, routing and delivery of chat messages.

pub mod buffer;
pub mod client;
pub mod delivery;
pub mod message;
pub mod parser;
pub mod people;
pub mod point;
pub mod pulse;
pub mod server;
pub mod store;
