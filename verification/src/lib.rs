//! Core logic of a bridge between battery-powered BLE temperature/humidity
//! sensors and an MQTT broker: decoding sensor notification payloads,
//! maintaining a FIFO connect queue with a connected set, and mirroring
//! sensor presence into a retained, topic-based device model with explicit
//! lifecycle states.

pub mod address;
pub mod bridge;
pub mod compat;
pub mod homie;
pub mod manager;
pub mod names;
pub mod readings;
pub mod text;
