//! The relay server: what it keeps in memory and how it decides.

pub mod cleanup;
pub mod config;
pub mod file_laws;
pub mod laws;
pub mod pairing;
pub mod pending;
pub mod persist;
pub mod relay;
pub mod reply;
pub mod request_laws;
pub mod session;
pub mod store;
pub mod upload;
pub mod upload_laws;
pub mod upload_store;
pub mod upload_task;
pub mod web;
pub mod web_laws;
pub mod ws;
