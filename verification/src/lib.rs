//! Verified core of the AFFiNE command-line client.
pub mod text;
pub mod cookies;
pub mod json;
pub mod client;
pub mod upload;
pub mod sync;
pub mod yjs;
pub mod tags;
pub mod config;
pub mod cli;
pub mod colcat;
pub mod docs;
pub mod queries;
