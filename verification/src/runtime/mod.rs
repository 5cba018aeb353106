//! Starting, supervising and stopping the node.

pub mod plans;
pub mod scenarios;
pub mod startup;
pub mod supervise;
