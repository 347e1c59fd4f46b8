//! Ingestion core for Wi-Fi channel-state-information datagrams: framing,
//! protobuf decoding, per-sender sequence tracking and batch bookkeeping.

pub mod config;
pub mod csi;
pub mod decimal;
pub mod error;
pub mod handler;
pub mod hex;
pub mod message;
pub mod record;
pub mod store;
pub mod telemetry;
pub mod window;
pub mod wire;
pub mod worker;
