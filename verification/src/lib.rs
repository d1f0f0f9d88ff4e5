//! A library for managing Assetto Corsa dedicated server instances on
//! remote hosts: the text parsers, command builders, configuration
//! checks and state transitions behind the manager, with their contracts.
use vstd::prelude::*;

pub mod decimal;
pub mod gui;
pub mod manager;
pub mod net;
pub mod order;
pub mod text;
pub mod utils;
