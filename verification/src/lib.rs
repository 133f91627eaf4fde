//! Verified core of the Hookbot server, its command-line tool and desktop companion.
pub mod auth;
pub mod config;
pub mod cli;
pub mod crypto;
pub mod desktop;
pub mod digest;
pub mod json;
pub mod models;
pub mod numbers;
pub mod ratelimit;
pub mod routes;
pub mod text;
