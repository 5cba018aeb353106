//! Settings of a node: where they come from and which rules they keep.

pub mod app;
pub mod endpoint;
pub mod error;
pub mod hosts;
pub mod rate;
pub mod rules;
pub mod source;
