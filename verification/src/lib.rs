//! Network diagnostics engine: the decisions behind ping, DNS resolver tests,
//! speed tests and update checks, stated as contracts and proved.
//!
//! Every network operation itself happens outside this library. The library
//! takes what the network gave as plain values and decides what to report.

pub mod adapters;
pub mod close;
pub mod dns;
pub mod geo;
pub mod json;
pub mod launch;
pub mod ping;
pub mod speed;
pub mod text;
pub mod update;
pub mod version;
