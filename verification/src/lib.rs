//! Decision logic of the Pulse load-testing node.

pub mod aggregation;
pub mod aggregation_scripts;
pub mod byte_text;
pub mod calls;
pub mod config;
pub mod contracts;
pub mod coordination;
pub mod coordination_scripts;
pub mod dispatch;
pub mod durations;
pub mod execution;
pub mod grpc;
pub mod health;
pub mod identities;
pub mod kafka;
pub mod keys;
pub mod laws;
pub mod leader;
pub mod metrics;
pub mod operations;
pub mod ordered;
pub mod quantile;
pub mod random;
pub mod runtime;
pub mod snapshot;
pub mod text;
