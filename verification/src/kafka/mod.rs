//! Kafka: client settings, topic readiness, evidence of bad records, dead letters
//! and offset commits.

pub mod commit;
pub mod dead_letter;
pub mod evidence;
pub mod settings;
pub mod topics;
