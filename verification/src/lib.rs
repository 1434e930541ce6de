//! A passive listener for a gossip network: typed decoding of incoming
//! messages, the message store with its retention rules, periodic aggregation,
//! and the decisions of the scheduler that drives them.
pub mod clock;
pub mod codec;
pub mod config;
pub mod db;
pub mod encoding;
pub mod message_types;
pub mod metrics;
pub mod operator;
pub mod roundtrip;
pub mod server;
pub mod text;
pub mod wire;
