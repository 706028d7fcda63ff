//! Supervisor core for a managed reverse-proxy client: process runner state,
//! watchdog command protocol, local traffic relay accounting, and the
//! configuration / version bookkeeping around them.
pub mod archive;
pub mod config;
pub mod download;
pub mod errors;
pub mod proxy;
pub mod relay;
pub mod runner;
pub mod state;
pub mod text;
pub mod types;
pub mod version;
pub mod version_service;
pub mod watchdog;
