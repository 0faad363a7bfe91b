//! Verified core of the `dotless` Polkadot inflation dashboard.

pub mod decimal;
pub mod search;
pub mod timefmt;
pub mod data;
pub mod live;
pub mod settings;
pub mod ingest;
pub mod chart;
