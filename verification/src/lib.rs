//! Domain rules of a process-manager daemon, with machine-checked contracts.

pub mod collection;
pub mod config;
pub mod daemon;
pub mod errors;
pub mod findings;
pub mod http;
pub mod identity;
pub mod numeric;
pub mod ordered_map;
pub mod process;
pub mod protection;
pub mod reading;
pub mod rules;
pub mod sequences;
pub mod severity;
pub mod text;
pub mod tuning;
