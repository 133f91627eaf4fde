//! Logic behind the `hookbot` command-line tool.
pub mod config;
pub mod devices;
pub mod hooks;
pub mod login;
pub mod ota;
pub mod security;
pub mod tunnels;
