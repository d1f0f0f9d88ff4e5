//! Helpers: the sample parsers, the remote command builders, the file
//! transfer commands and the templates of the files written to a host.
pub mod commands;
pub mod sftp_helpers;
pub mod stats_helpers;
pub mod templates;
