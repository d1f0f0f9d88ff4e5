//! The manager's core: errors, server configuration files, host
//! dependencies and connection profiles.
pub mod error;
pub mod config;
pub mod deps;
pub mod profiles;
