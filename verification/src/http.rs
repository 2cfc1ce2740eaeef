//! What the HTTP surface answers: assets, logs, metrics, process actions and their refusals.
//!
//! Sockets, files and serialisation belong to the server around this crate. A request arrives here
//! as plain values and leaves as a plain reply.

pub mod analytics;
pub mod auth;
pub mod codec;
pub mod commands;
pub mod compress;
pub mod dashboard;
pub mod exposition;
pub mod host;
pub mod logs;
pub mod observation;
pub mod render;
pub mod reply;
pub mod routes;
pub mod settings;
