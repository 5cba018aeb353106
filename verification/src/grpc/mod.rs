//! Messages of services that are known by their descriptors only.

pub mod account;
pub mod decode;
pub mod descriptor;
pub mod encode;
pub mod gateway;
pub mod round_trip;
pub mod same_value;
pub mod schema;
pub mod schema_laws;
pub mod undeclared;
pub mod value;
pub mod wire;
