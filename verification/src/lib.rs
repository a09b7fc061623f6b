//! Verified core of Lan Mouse+, a software KVM switch with file and clipboard sharing.
pub mod cli;
pub mod client;
pub mod clipboard;
pub mod collections;
pub mod connect;
pub mod crypto;
pub mod discovery;
pub mod file_drop;
pub mod file_transfer;
pub mod ipc;
pub mod logger;
pub mod net;
pub mod program;
pub mod remote_log;
pub mod service;
pub mod text;
pub mod ui;
pub mod uri;
pub mod windows_service;
