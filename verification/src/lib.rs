//! Georuggine: trip tracking for one server and many clients.

pub mod admin;
pub mod auth;
pub mod calendar;
pub mod client;
pub mod config;
pub mod connection;
pub mod cpu_log;
pub mod double;
pub mod guarantees;
pub mod message;
pub mod number;
pub mod record;
pub mod server;
pub mod sessions;
pub mod sim;
pub mod stats;
pub mod status;
pub mod text;
pub mod text_map;
pub mod trips;
pub mod world;
