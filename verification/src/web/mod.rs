//! The web panel server's logic: its config file, its socket commands and
//! its periodic refresh.
pub mod config_file;
pub mod command;
pub mod builder;
pub mod list;
pub mod engine;
pub mod ft;
pub mod stats;
pub mod session;
pub mod panel;
pub mod server;
