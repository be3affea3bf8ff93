//! Verified core of the globalping probe: measurement option checks,
//! argument builders, output parsers, reconnect policy and status logic.

pub mod command;
pub mod config;
pub mod probe;
pub mod status;
pub mod text;
pub mod unicode;
pub mod util;
