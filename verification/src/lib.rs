//! A single-writer gateway for SQLite.
pub mod args;
pub mod client;
pub mod config;
pub mod error;
pub mod http;
pub mod json;
pub mod jsonrpc;
pub mod latency;
pub mod laws;
pub mod ledger;
pub mod params;
pub mod protocol_laws;
pub mod queue;
pub mod request;
pub mod script;
pub mod sidecar;
pub mod sql;
pub mod squeue;
pub mod stats;
pub mod store;
pub mod submission;
pub mod text;
pub mod writer;
pub mod writer_laws;

pub use config::{
    BatchConfig, GatewayConfig, JournalMode, OverflowPolicy, SidecarConfig, SyncMode,
};
pub use error::Error;
pub use request::{SqlOperation, WriteRequest, WriteResponse, WriteStatus};
pub use stats::StatsSnapshot;
