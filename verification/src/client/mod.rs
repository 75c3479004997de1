//! The PC client: how it is configured, how it keeps in touch with the server, and what it does with
//! what it is sent.

pub mod clipboard;
pub mod config;
pub mod dib;
pub mod download;
pub mod file_handler;
pub mod file_laws;
pub mod grpc;
pub mod laws;
pub mod picture;
pub mod save_name;
pub mod ui;
