//! What the functions of the library promise, stated of their inputs and results: a
//! result that a function may return is one for which `call_ensures` holds.

pub mod aggregation;
pub mod dispatch;
pub mod evidence;
pub mod execution;
pub mod health;
pub mod helpers;
pub mod kafka;
pub mod leader;
pub mod messages;
pub mod metrics;
pub mod outbox;
pub mod readers;
pub mod reading;
pub mod rounding;
pub mod rules;
pub mod runtime;
pub mod schema;
pub mod script;
pub mod settings;
pub mod snapshot;
pub mod summaries;
pub mod text;
pub mod values;
pub mod wire;
pub mod words;
